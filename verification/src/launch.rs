//! Launch routing: turning process arguments into "open these files" events.
//!
//! Both entry points — a cold start and a second-instance signal — scan the
//! invocation's arguments after the executable path, keep those that do not
//! begin with the flag marker `-` and that name an existing filesystem
//! entry, and route the kept paths, in argument order, to the front end's
//! event channel. The caller reports each argument's existence; performing
//! the filesystem probe, the delay timer, and the event emission stays with
//! the process shell.

use vstd::prelude::*;

verus! {

/// The delay, in milliseconds, between a cold start and its open-files
/// event: the front end must have subscribed before the event fires.
pub const OPEN_FILES_DELAY_MS: u64 = 500;

/// An argument that is a flag: it begins with the flag marker.
pub open spec fn is_flag(a: Seq<char>) -> bool {
    a.len() > 0 && a[0] == '-'
}

/// An argument that the router keeps: present on the filesystem and not a
/// flag.
pub open spec fn kept_arg(a: Seq<char>, present: bool) -> bool {
    present && !is_flag(a)
}

/// The kept arguments, in argument order. `present` reports, position by
/// position, whether the argument names an existing filesystem entry.
pub open spec fn kept_paths(args: Seq<Seq<char>>, present: Seq<bool>) -> Seq<Seq<char>>
    decreases args.len(),
{
    if args.len() == 0 {
        Seq::empty()
    } else {
        let rest = kept_paths(args.drop_last(), present.drop_last());
        if kept_arg(args.last(), present[args.len() - 1]) {
            rest.push(args.last())
        } else {
            rest
        }
    }
}

/// The kept arguments of a full argument vector, excluding argument 0 (the
/// executable path).
pub open spec fn routed_paths(argv: Seq<Seq<char>>, present: Seq<bool>) -> Seq<Seq<char>> {
    if argv.len() == 0 {
        Seq::empty()
    } else {
        kept_paths(argv.skip(1), present.skip(1))
    }
}

/// What a cold start schedules: after `delay_ms`, emit the open-files event
/// carrying `open_paths`.
pub struct ColdStartPlan {
    pub delay_ms: u64,
    pub open_paths: Vec<String>,
}

/// What a second-instance signal does at once: emit the open-files event
/// when any path was kept, and always bring the main window to the front,
/// cleared of any minimized state.
pub struct SecondInstanceDirective {
    pub open_paths: Vec<String>,
    pub emit_open_files: bool,
    pub focus_main_window: bool,
}

fn is_flag_arg(a: &str) -> (r: bool)
    ensures
        r == is_flag(a@),
{
    if a.is_empty() {
        false
    } else {
        a.get_char(0) == '-'
    }
}

/// Keeps the arguments that are present and not flags, in order.
pub fn filter_launch_args(args: &Vec<String>, present: &Vec<bool>) -> (r: Vec<String>)
    requires
        args@.len() == present@.len(),
    ensures
        r.deep_view() == kept_paths(args.deep_view(), present@),
{
    let mut r: Vec<String> = Vec::new();
    let mut i: usize = 0;
    proof {
        assert(args.deep_view().len() == args@.len());
        assert(args.deep_view().subrange(0, 0) =~= Seq::<Seq<char>>::empty());
        assert(present@.subrange(0, 0) =~= Seq::<bool>::empty());
    }
    while i < args.len()
        invariant
            i <= args@.len() == present@.len(),
            args.deep_view().len() == args@.len(),
            r.deep_view() == kept_paths(
                args.deep_view().subrange(0, i as int),
                present@.subrange(0, i as int),
            ),
        decreases args@.len() - i,
    {
        let ghost av = args.deep_view();
        let ghost head_args = av.subrange(0, i as int);
        let ghost head_present = present@.subrange(0, i as int);
        proof {
            assert(av.subrange(0, i + 1).drop_last() =~= head_args);
            assert(present@.subrange(0, i + 1).drop_last() =~= head_present);
            assert(av.subrange(0, i + 1).last() == av[i as int]);
            assert(av[i as int] == args@[i as int]@);
        }
        let keep = if is_flag_arg(args[i].as_str()) {
            false
        } else {
            present[i]
        };
        if keep {
            let ghost old_r = r.deep_view();
            r.push(args[i].clone());
            proof {
                assert(r.deep_view() =~= old_r.push(args@[i as int]@));
            }
        }
        i += 1;
    }
    proof {
        assert(args.deep_view().subrange(0, args@.len() as int) =~= args.deep_view());
        assert(present@.subrange(0, present@.len() as int) =~= present@);
    }
    r
}

/// Drops argument 0 of a full argument vector and keeps the rest as
/// `filter_launch_args` does.
fn filter_argv_tail(argv: &Vec<String>, present: &Vec<bool>) -> (r: Vec<String>)
    requires
        argv@.len() == present@.len(),
    ensures
        r.deep_view() == routed_paths(argv.deep_view(), present@),
{
    let mut tail_args: Vec<String> = Vec::new();
    let mut tail_present: Vec<bool> = Vec::new();
    let mut i: usize = 1;
    proof {
        if argv@.len() > 0 {
            assert(tail_args.deep_view() =~= argv.deep_view().subrange(1, 1));
            assert(tail_present@ =~= present@.subrange(1, 1));
        }
    }
    while i < argv.len()
        invariant
            argv@.len() == present@.len(),
            argv.deep_view().len() == argv@.len(),
            1 <= i <= argv@.len() || (argv@.len() == 0 && i == 1),
            argv@.len() > 0 ==> tail_args.deep_view() == argv.deep_view().subrange(1, i as int),
            argv@.len() > 0 ==> tail_present@ == present@.subrange(1, i as int),
            argv@.len() == 0 ==> tail_args@.len() == 0 && tail_present@.len() == 0,
            tail_args@.len() == tail_present@.len(),
        decreases argv@.len() - i,
    {
        let ghost av = argv.deep_view();
        let ghost old_args = tail_args.deep_view();
        let ghost old_present = tail_present@;
        tail_args.push(argv[i].clone());
        tail_present.push(present[i]);
        proof {
            assert(tail_args.deep_view() =~= old_args.push(argv@[i as int]@));
            assert(av.subrange(1, i + 1) =~= av.subrange(1, i as int).push(av[i as int]));
            assert(present@.subrange(1, i + 1) =~= present@.subrange(1, i as int).push(
                present@[i as int],
            ));
        }
        i += 1;
    }
    proof {
        if argv@.len() > 0 {
            assert(argv.deep_view().subrange(1, argv@.len() as int) =~= argv.deep_view().skip(
                1,
            ));
            assert(present@.subrange(1, present@.len() as int) =~= present@.skip(1));
        }
    }
    let r = filter_launch_args(&tail_args, &tail_present);
    proof {
        if argv@.len() == 0 {
            assert(tail_args.deep_view().len() == tail_args@.len());
            assert(tail_args.deep_view() =~= Seq::<Seq<char>>::empty());
            assert(kept_paths(tail_args.deep_view(), tail_present@) =~= Seq::<Seq<char>>::empty());
        }
    }
    r
}

/// Routes a cold start: when any argument survives the filter, schedule the
/// open-files event for those paths after the fixed delay; otherwise do
/// nothing.
pub fn plan_cold_start(argv: &Vec<String>, present: &Vec<bool>) -> (r: Option<ColdStartPlan>)
    requires
        argv@.len() == present@.len(),
    ensures
        match r {
            Some(plan) => routed_paths(argv.deep_view(), present@).len() > 0
                && plan.delay_ms == OPEN_FILES_DELAY_MS && plan.open_paths.deep_view()
                == routed_paths(argv.deep_view(), present@),
            None => routed_paths(argv.deep_view(), present@).len() == 0,
        },
{
    let paths = filter_argv_tail(argv, present);
    if paths.len() > 0 {
        Some(ColdStartPlan { delay_ms: OPEN_FILES_DELAY_MS, open_paths: paths })
    } else {
        proof {
            assert(paths.deep_view().len() == paths@.len());
        }
        None
    }
}

/// Routes a second-instance signal: emit the open-files event exactly when
/// any argument survives the filter, and in every case bring the main
/// window to the front.
pub fn plan_second_instance(argv: &Vec<String>, present: &Vec<bool>) -> (r:
    SecondInstanceDirective)
    requires
        argv@.len() == present@.len(),
    ensures
        r.open_paths.deep_view() == routed_paths(argv.deep_view(), present@),
        r.emit_open_files == (routed_paths(argv.deep_view(), present@).len() > 0),
        r.focus_main_window,
{
    let paths = filter_argv_tail(argv, present);
    proof {
        assert(paths.deep_view().len() == paths@.len());
    }
    let emit = paths.len() > 0;
    SecondInstanceDirective { open_paths: paths, emit_open_files: emit, focus_main_window: true }
}

/// The event channel name that carries the kept paths to the front end.
pub fn open_files_event() -> (r: &'static str)
    ensures
        r@ == "open-files"@,
{
    "open-files"
}

} // verus!
