use vstd::prelude::*;
use crate::context::{str_eq, Context};
use crate::error::KoralResult;
use crate::flag::Flag;
use crate::text::copy_strings;
use crate::traits;

verus! {

/// What an application does with its context.
pub trait Action {
    /// Runs the action.
    fn call(&self, ctx: Context) -> KoralResult<()>;
}

/// What a run of an [`App`] did: show help, or run the action, of the
/// application at a path of sub-application indices.
#[derive(Debug, Clone, PartialEq, Eq)]
pub enum Invocation {
    Help(Vec<usize>),
    Action(Vec<usize>),
}

/// A small application: a name, sub-applications selected by their name as
/// the first argument, flags looked up directly, and an action.
pub struct App<A> {
    pub name: String,
    pub apps: Vec<App<A>>,
    pub action: Option<A>,
    pub flags: Vec<Flag>,
}

/// Some argument asks for help: `--help` or `-h`.
pub open spec fn asks_help(args: Seq<Seq<char>>) -> bool {
    exists|i: int| 0 <= i < args.len() && (#[trigger] args[i] == "--help"@ || args[i] == "-h"@)
}

/// First sub-application at or after `k` named `n`.
pub open spec fn sub_app_from<A>(app: App<A>, n: Seq<char>, k: int) -> Option<int>
    decreases app.apps@.len() - k,
{
    if k < 0 || k >= app.apps@.len() {
        None
    } else if app.apps@[k].name@ == n {
        Some(k)
    } else {
        sub_app_from(app, n, k + 1)
    }
}

/// The application a run selects, as a path of sub-application indices, and
/// whether it shows help: a second argument naming a sub-application runs
/// that one on the arguments from there; otherwise help if asked for, else
/// the action.
pub open spec fn selected<A>(app: App<A>, args: Seq<Seq<char>>, path: Seq<int>) -> (Seq<int>, bool)
    decreases args.len(),
{
    if args.len() > 1 {
        match sub_app_from(app, args[1], 0) {
            Some(k) => selected(app.apps@[k], args.subrange(1, args.len() as int), path.push(k)),
            None => (path, asks_help(args)),
        }
    } else {
        (path, false)
    }
}

/// The application at `path` below `app`.
pub open spec fn app_at<A>(app: App<A>, path: Seq<int>) -> App<A>
    decreases path.len(),
{
    if path.len() == 0 {
        app
    } else {
        app_at(app.apps@[path[0]], path.drop_first())
    }
}

proof fn lemma_selected_extends<A>(app: App<A>, args: Seq<Seq<char>>, path: Seq<int>)
    ensures
        selected(app, args, path).0.len() >= path.len(),
        selected(app, args, path).0.subrange(0, path.len() as int) == path,
    decreases args.len(),
{
    if args.len() > 1 {
        match sub_app_from(app, args[1], 0) {
            Some(k) => {
                let tail = args.subrange(1, args.len() as int);
                lemma_selected_extends(app.apps@[k], tail, path.push(k));
                let p = selected(app, args, path).0;
                assert(p.subrange(0, path.len() as int) =~= p.subrange(0, path.len() as int + 1).drop_last());
            },
            None => {
                assert(path.subrange(0, path.len() as int) =~= path);
            },
        }
    } else {
        assert(path.subrange(0, path.len() as int) =~= path);
    }
}

pub open spec fn usize_path(p: Seq<usize>) -> Seq<int> {
    Seq::new(p.len(), |i: int| p[i] as int)
}

impl<A: Action> App<A> {
    /// An application named `name` with nothing else.
    pub fn new(name: &str) -> (r: App<A>)
        ensures
            r.name@ == name@,
            r.apps@.len() == 0,
            r.action is None,
            r.flags@.len() == 0,
    {
        App { name: String::from_str(name), apps: Vec::new(), action: None, flags: Vec::new() }
    }

    /// Sets the action.
    pub fn action(self, action: A) -> (r: App<A>)
        ensures
            r.action == Some(action),
            r.name == self.name,
            r.apps == self.apps,
            r.flags == self.flags,
    {
        App { action: Some(action), ..self }
    }

    /// Adds a sub-application.
    pub fn app(self, app: App<A>) -> (r: App<A>)
        ensures
            r.apps@ == self.apps@.push(app),
            r.name == self.name,
            r.action == self.action,
            r.flags == self.flags,
    {
        let mut s = self;
        s.apps.push(app);
        s
    }

    /// Adds a flag.
    pub fn flag(self, flag: Flag) -> (r: App<A>)
        ensures
            r.flags@ == self.flags@.push(flag),
            r.name == self.name,
            r.action == self.action,
            r.apps == self.apps,
    {
        let mut s = self;
        s.flags.push(flag);
        s
    }

    fn is_help(args: &Vec<String>) -> (r: bool)
        ensures
            r == asks_help(args.deep_view()),
    {
        let mut i: usize = 0;
        while i < args.len()
            invariant
                i <= args@.len(),
                forall|x: int| 0 <= x < i ==> !(#[trigger] args.deep_view()[x] == "--help"@ || args.deep_view()[x] == "-h"@),
            decreases args@.len() - i,
        {
            if str_eq(args[i].as_str(), "--help") || str_eq(args[i].as_str(), "-h") {
                assert(args.deep_view()[i as int] == args@[i as int]@);
                return true;
            }
            assert(args.deep_view()[i as int] == args@[i as int]@);
            i = i + 1;
        }
        false
    }

    fn find_app(&self, n: &String) -> (r: Option<usize>)
        ensures
            r matches Some(k) ==> sub_app_from(*self, n@, 0) == Some(k as int) && k < self.apps@.len(),
            r is None ==> sub_app_from(*self, n@, 0) is None,
    {
        let mut k: usize = 0;
        while k < self.apps.len()
            invariant
                k <= self.apps@.len(),
                sub_app_from(*self, n@, 0) == sub_app_from(*self, n@, k as int),
            decreases self.apps@.len() - k,
        {
            if self.apps[k].name == *n {
                return Some(k);
            }
            k = k + 1;
        }
        None
    }

    fn run_at(&self, args: Vec<String>, path: Vec<usize>) -> (r: KoralResult<Invocation>)
        ensures
            selected(*self, args.deep_view(), usize_path(path@)) matches (p, help) && if help {
                r matches Ok(Invocation::Help(q)) && usize_path(q@) == p
            } else {
                (r is Err || (r matches Ok(Invocation::Action(q)) && usize_path(q@) == p)) && (app_at(
                    *self,
                    p.subrange(path@.len() as int, p.len() as int),
                ).action is None ==> (r matches Ok(Invocation::Action(q)) && usize_path(q@) == p))
            },
        decreases args@.len(),
    {
        if args.len() > 1 {
            match self.find_app(&args[1]) {
                Some(k) => {
                    assert(args.deep_view()[1] == args@[1]@);
                    let mut tail: Vec<String> = Vec::new();
                    let mut i: usize = 1;
                    while i < args.len()
                        invariant
                            1 <= i <= args@.len(),
                            tail.deep_view() == args.deep_view().subrange(1, i as int),
                        decreases args@.len() - i,
                    {
                        let ghost before = tail.deep_view();
                        tail.push(args[i].clone());
                        proof {
                            let av = args.deep_view();
                            assert(tail.deep_view() =~= before.push(av[i as int]));
                            assert(av.subrange(1, i + 1) =~= av.subrange(1, i as int).push(av[i as int]));
                        }
                        i = i + 1;
                    }
                    let ghost old_path = usize_path(path@);
                    let mut next = path;
                    next.push(k);
                    proof {
                        assert(usize_path(next@) =~= old_path.push(k as int));
                        let tv = args.deep_view().subrange(1, args@.len() as int);
                        let sub = self.apps@[k as int];
                        lemma_selected_extends(sub, tv, old_path.push(k as int));
                        let p = selected(sub, tv, old_path.push(k as int)).0;
                        let n = old_path.len() as int;
                        assert(p[n] == k as int) by {
                            assert(p.subrange(0, n + 1)[n] == old_path.push(k as int)[n]);
                        }
                        let below = p.subrange(n, p.len() as int);
                        assert(below.drop_first() =~= p.subrange(n + 1, p.len() as int));
                        assert(app_at(*self, below) == app_at(sub, p.subrange(n + 1, p.len() as int)));
                    }
                    return self.apps[k].run_at(tail, next);
                },
                None => {
                    assert(args.deep_view()[1] == args@[1]@);
                    proof {
                        let pv = usize_path(path@);
                        assert(pv.subrange(pv.len() as int, pv.len() as int) =~= Seq::<int>::empty());
                    }
                    if Self::is_help(&args) {
                        return Ok(Invocation::Help(path));
                    }
                },
            }
        }
        proof {
            let pv = usize_path(path@);
            assert(pv.subrange(pv.len() as int, pv.len() as int) =~= Seq::<int>::empty());
        }
        match &self.action {
            Some(a) => {
                let ctx = Context::new(args, copy_flags(&self.flags));
                match a.call(ctx) {
                    Ok(()) => Ok(Invocation::Action(path)),
                    Err(e) => Err(e),
                }
            },
            None => Ok(Invocation::Action(path)),
        }
    }

    /// Runs on `args` (program name first): a second argument naming a
    /// sub-application runs that one on the arguments from there; otherwise
    /// `--help` or `-h` anywhere shows help; otherwise the action runs (an
    /// application without an action succeeds).
    pub fn run(&self, args: Vec<String>) -> (r: KoralResult<Invocation>)
        ensures
            selected(*self, args.deep_view(), seq![]) matches (p, help) && if help {
                r matches Ok(Invocation::Help(q)) && usize_path(q@) == p
            } else {
                (r is Err || (r matches Ok(Invocation::Action(q)) && usize_path(q@) == p)) && (app_at(
                    *self,
                    p,
                ).action is None ==> (r matches Ok(Invocation::Action(q)) && usize_path(q@) == p))
            },
    {
        let path: Vec<usize> = Vec::new();
        proof {
            assert(usize_path(path@) =~= seq![]);
            let p = selected(*self, args.deep_view(), seq![]).0;
            assert(p.subrange(0, p.len() as int) =~= p);
        }
        self.run_at(args, path)
    }
}

/// A copy of each simple flag.
fn copy_flags(flags: &Vec<Flag>) -> (r: Vec<Flag>)
    ensures
        r@.len() == flags@.len(),
        forall|i: int| 0 <= i < flags@.len() ==> (#[trigger] r@[i]).name@ == flags@[i].name@
            && r@[i].kind == flags@[i].kind && r@[i].alias.deep_view() == flags@[i].alias.deep_view(),
{
    let mut r: Vec<Flag> = Vec::new();
    let mut i: usize = 0;
    while i < flags.len()
        invariant
            i <= flags@.len(),
            r@.len() == i,
            forall|x: int| 0 <= x < i ==> (#[trigger] r@[x]).name@ == flags@[x].name@
                && r@[x].kind == flags@[x].kind && r@[x].alias.deep_view() == flags@[x].alias.deep_view(),
        decreases flags@.len() - i,
    {
        let f = &flags[i];
        r.push(Flag { name: f.name.clone(), alias: copy_strings(&f.alias), kind: f.kind });
        i = i + 1;
    }
    r
}

impl<A: Action> traits::App for App<A> {
    fn name(&self) -> String {
        self.name.clone()
    }

    fn flags(&self) -> Vec<Flag> {
        copy_flags(&self.flags)
    }

    fn run(&self, args: Vec<String>) -> KoralResult<Invocation> {
        App::run(self, args)
    }
}

} // verus!
