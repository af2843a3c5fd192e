use vstd::prelude::*;
use crate::config::ClassConfig;
use crate::errors::AutotestError;
use crate::jsonio::{json_text_wellformed, discovery_labels_of, json_wellformed, discovery_labels};
use crate::strutil::{
    spec_join_path, spec_parent_dir, spec_rfind, spec_starts_with, spec_contains_dot_c, join_path,
    parent_dir, rfind_char, starts_with_str, str_eq, contains_dot_c,
};

verus! {

/// The views of a sequence of strings.
pub open spec fn views_of(s: Seq<String>) -> Seq<Seq<char>> {
    Seq::new(s.len(), |i: int| s[i]@)
}

/// One synchronous invocation of the external grading tool: the program, its
/// argument vector, and the search path handed to the child process alone.
#[derive(Debug, Clone, PartialEq, Eq)]
pub struct CommandSpec {
    pub program: String,
    pub args: Vec<String>,
    pub path_var: String,
}

/// The staged runner's parsed arguments: the chosen compiler, the stage
/// prefix that selects test labels, and the command tail handed through.
#[derive(Debug, Clone, PartialEq, Eq)]
pub struct StageRequest {
    pub compiler: String,
    pub stage_prefix: String,
    pub command_tail: Vec<String>,
}

/// The three known toolchains.
pub open spec fn is_compiler_name(s: Seq<char>) -> bool {
    s == "dcc"@ || s == "gcc"@ || s == "clang"@
}

fn is_compiler_str(s: &str) -> (r: bool)
    ensures
        r == is_compiler_name(s@),
{
    str_eq(s, "dcc") || str_eq(s, "gcc") || str_eq(s, "clang")
}

/// The compiler the single-pass runner uses: the first argument when it names
/// a known toolchain, `clang` otherwise.
pub open spec fn spec_selected_compiler(args: Seq<Seq<char>>) -> Seq<char> {
    if args.len() > 0 && is_compiler_name(args[0]) {
        args[0]
    } else {
        "clang"@
    }
}

/// The arguments the single-pass runner passes on: all of them, less a
/// leading toolchain name.
pub open spec fn spec_remaining_args(args: Seq<Seq<char>>) -> Seq<Seq<char>> {
    if args.len() > 0 && is_compiler_name(args[0]) {
        args.drop_first()
    } else {
        args
    }
}

/// Pick the compiler from the arguments (dcc/gcc/clang) if present.
pub fn select_compiler<'a>(args: &'a [String]) -> (r: (&'a str, Vec<String>))
    ensures
        r.0@ == spec_selected_compiler(views_of(args@)),
        views_of(r.1@) == spec_remaining_args(views_of(args@)),
{
    let n = args.len();
    let ghost v = views_of(args@);
    if n > 0 && is_compiler_str(args[0].as_str()) {
        let mut remaining: Vec<String> = Vec::new();
        let mut i: usize = 1;
        while i < n
            invariant
                1 <= i <= n,
                n == args@.len(),
                views_of(remaining@) == views_of(args@).subrange(1, i as int),
            decreases n - i,
        {
            let ghost prev = views_of(remaining@);
            remaining.push(args[i].clone());
            proof {
                assert(views_of(remaining@) =~= prev.push(args@[i as int]@));
                assert(views_of(remaining@) =~= views_of(args@).subrange(1, i + 1));
            }
            i = i + 1;
        }
        proof {
            assert(views_of(args@).subrange(1, n as int) =~= views_of(args@).drop_first());
        }
        (args[0].as_str(), remaining)
    } else {
        let mut remaining: Vec<String> = Vec::new();
        let mut i: usize = 0;
        while i < n
            invariant
                i <= n,
                n == args@.len(),
                views_of(remaining@) == views_of(args@).subrange(0, i as int),
            decreases n - i,
        {
            let ghost prev = views_of(remaining@);
            remaining.push(args[i].clone());
            proof {
                assert(views_of(remaining@) =~= prev.push(args@[i as int]@));
                assert(views_of(remaining@) =~= views_of(args@).subrange(0, i + 1));
            }
            i = i + 1;
        }
        proof {
            assert(views_of(args@).subrange(0, n as int) =~= views_of(args@));
        }
        ("clang", remaining)
    }
}

/// What extending an inherited search path yields: the directory appended,
/// colon-separated, after the inherited value; the directory alone when no
/// inherited value existed or it was empty.
pub open spec fn spec_extend_path(orig: Option<Seq<char>>, dir: Option<Seq<char>>) -> Seq<char> {
    let base = match orig {
        Some(p) => p,
        None => Seq::<char>::empty(),
    };
    match dir {
        None => base,
        Some(d) => if base.len() == 0 {
            d
        } else {
            base + ":"@ + d
        },
    }
}

/// Extend an inherited search path with an optional directory.
pub fn extend_path_with_dir(original_path: Option<&String>, dir: Option<&str>) -> (r: String)
    ensures
        r@ == spec_extend_path(
            match original_path {
                Some(p) => Some(p@),
                None => None,
            },
            match dir {
                Some(d) => Some(d@),
                None => None,
            },
        ),
{
    let mut new_path = String::new();
    match original_path {
        Some(p) => {
            new_path.append(p.as_str());
        },
        None => {},
    }
    match dir {
        Some(d) => {
            if !new_path.as_str().is_empty() {
                new_path.append(":");
            }
            new_path.append(d);
        },
        None => {},
    }
    new_path
}

/// The parameters literal the external grading tool expects: the chosen
/// compiler with the strict-warnings flag as the default `c` compiler, and
/// the syntax checker run through `python3` as the default `c` checker.
pub open spec fn spec_params(compiler: Seq<char>, checker: Seq<char>) -> Seq<char> {
    "default_compilers = {'c': [['"@ + compiler + "', '-Werror']]} default_checkers = {'c': [['python3', '"@
        + checker + "']]}"@
}

pub fn build_params(compiler: &str, checker: &str) -> (r: String)
    ensures
        r@ == spec_params(compiler@, checker@),
{
    let mut r = String::new();
    r.append("default_compilers = {'c': [['");
    r.append(compiler);
    r.append("', '-Werror']]} default_checkers = {'c': [['python3', '");
    r.append(checker);
    r.append("']]}");
    r
}

/// The grading session root taken from the overlay, empty when the overlay
/// does not name one.
pub open spec fn spec_session_dir(config: ClassConfig) -> Seq<char> {
    if config.custom_config@.contains_key("public_html_session_directory"@) {
        config.custom_config@.index("public_html_session_directory"@)
    } else {
        Seq::<char>::empty()
    }
}

/// The directory holding the syntax-checker script, under the session root.
pub open spec fn spec_checker_dir(session: Seq<char>) -> Seq<char> {
    spec_join_path(session, "public/_infra/extern/c_check"@)
}

/// The syntax-checker script path, under the session root.
pub open spec fn spec_checker_path(session: Seq<char>) -> Seq<char> {
    spec_join_path(spec_checker_dir(session), "c_check.py"@)
}

/// The fixed leading arguments of every grading-tool invocation for a session
/// root and compiler: isolated-mode python on the grading script, the
/// exercise directory, and the parameters literal.
pub open spec fn spec_base_argv(session: Seq<char>, compiler: Seq<char>) -> Seq<Seq<char>> {
    seq![
        "-I"@,
        "/usr/local/share/autotest/autotest.py"@,
        "--exercise_directory"@,
        spec_join_path(session, "activities"@),
        "--parameters"@,
        spec_params(compiler, spec_checker_path(session)),
    ]
}

/// The search path handed to the spawned grading tool: the inherited one
/// extended with the syntax checker's directory.
pub open spec fn spec_invocation_path_var(session: Seq<char>, orig: Option<Seq<char>>) -> Seq<
    char,
> {
    spec_extend_path(orig, Some(spec_checker_dir(session)))
}

/// Assemble one grading-tool invocation from the resolved configuration, the
/// chosen compiler, the caller's inherited search path, and trailing
/// arguments.
pub fn build_invocation(
    config: &ClassConfig,
    compiler: &str,
    inherited_path: Option<&String>,
    extra_args: &Vec<String>,
) -> (r: CommandSpec)
    requires
        config.wf(),
    ensures
        r.program@ == "python3"@,
        views_of(r.args@) == spec_base_argv(spec_session_dir(*config), compiler@) + views_of(
            extra_args@,
        ),
        r.path_var@ == spec_invocation_path_var(
            spec_session_dir(*config),
            match inherited_path {
                Some(p) => Some(p@),
                None => None,
            },
        ),
{
    let session: &str = match config.get_custom_config("public_html_session_directory") {
        Some(s) => s.as_str(),
        None => "",
    };
    proof {
        reveal_strlit("");
        assert(""@ =~= Seq::<char>::empty());
        assert(session@ == spec_session_dir(*config));
    }
    let activities = join_path(session, "activities");
    let checker_dir = join_path(session, "public/_infra/extern/c_check");
    let checker = join_path(checker_dir.as_str(), "c_check.py");
    let params = build_params(compiler, checker.as_str());
    let path_var = extend_path_with_dir(inherited_path, Some(checker_dir.as_str()));
    let mut args: Vec<String> = Vec::new();
    args.push("-I".to_owned());
    args.push("/usr/local/share/autotest/autotest.py".to_owned());
    args.push("--exercise_directory".to_owned());
    args.push(activities);
    args.push("--parameters".to_owned());
    args.push(params);
    let ghost base = views_of(args@);
    proof {
        assert(base =~= spec_base_argv(spec_session_dir(*config), compiler@));
    }
    let n = extra_args.len();
    let mut i: usize = 0;
    while i < n
        invariant
            i <= n,
            n == extra_args@.len(),
            views_of(args@) == base + views_of(extra_args@).subrange(0, i as int),
        decreases n - i,
    {
        let ghost prev = views_of(args@);
        args.push(extra_args[i].clone());
        proof {
            assert(views_of(args@) =~= prev.push(extra_args@[i as int]@));
            assert(views_of(args@) =~= base + views_of(extra_args@).subrange(0, i + 1));
        }
        i = i + 1;
    }
    proof {
        assert(views_of(extra_args@).subrange(0, n as int) =~= views_of(extra_args@));
    }
    CommandSpec { program: "python3".to_owned(), args, path_var }
}

/// Whether any argument token holds `.c`.
pub open spec fn any_dot_c(args: Seq<Seq<char>>) -> bool {
    exists|i: int| 0 <= i < args.len() && spec_contains_dot_c(#[trigger] args[i])
}

/// The index after the optional leading course marker `1091`.
pub open spec fn stage_start(args: Seq<Seq<char>>) -> int {
    if args.len() > 0 && args[0] == "1091"@ {
        1
    } else {
        0
    }
}

/// Whether an explicit toolchain name follows the optional course marker.
pub open spec fn stage_has_compiler(args: Seq<Seq<char>>) -> bool {
    args.len() > stage_start(args) && is_compiler_name(args[stage_start(args)])
}

/// The index of the stage prefix among the arguments.
pub open spec fn stage_prefix_idx(args: Seq<Seq<char>>) -> int {
    if stage_has_compiler(args) {
        stage_start(args) + 1
    } else {
        stage_start(args)
    }
}

/// The staged runner's compiler: the explicit toolchain name, or `clang`.
pub open spec fn stage_compiler(args: Seq<Seq<char>>) -> Seq<char> {
    if stage_has_compiler(args) {
        args[stage_start(args)]
    } else {
        "clang"@
    }
}

/// Parse the staged runner's arguments: an argument naming a `.c` file fails
/// before anything else; an optional `1091` course marker and an optional
/// toolchain name are consumed; a stage prefix and a non-empty command tail
/// must remain.
pub fn parse_stage_args(args: &Vec<String>) -> (r: Result<StageRequest, AutotestError>)
    ensures
        any_dot_c(views_of(args@)) ==> r == Err::<StageRequest, AutotestError>(
            AutotestError::InvalidArgument,
        ),
        !any_dot_c(views_of(args@)) ==> {
            let v = views_of(args@);
            if v.len() < stage_prefix_idx(v) + 2 {
                r == Err::<StageRequest, AutotestError>(AutotestError::UsageError)
            } else {
                r matches Ok(req) && req.compiler@ == stage_compiler(v) && req.stage_prefix@
                    == v[stage_prefix_idx(v)] && views_of(req.command_tail@) == v.skip(
                    stage_prefix_idx(v) + 1,
                )
            }
        },
{
    let ghost v = views_of(args@);
    let n = args.len();
    let mut i: usize = 0;
    while i < n
        invariant
            i <= n,
            n == args@.len(),
            v == views_of(args@),
            forall|j: int| 0 <= j < i ==> !spec_contains_dot_c(#[trigger] v[j]),
        decreases n - i,
    {
        if contains_dot_c(args[i].as_str()) {
            proof {
                assert(spec_contains_dot_c(v[i as int]));
                assert(any_dot_c(v));
            }
            return Err(AutotestError::InvalidArgument);
        }
        i = i + 1;
    }
    assert(!any_dot_c(v));
    let mut idx: usize = 0;
    if n > 0 && str_eq(args[0].as_str(), "1091") {
        idx = 1;
    }
    assert(idx as int == stage_start(v));
    let mut compiler = String::new();
    if n > idx && is_compiler_str(args[idx].as_str()) {
        compiler = args[idx].clone();
        idx = idx + 1;
    } else {
        compiler.append("clang");
    }
    assert(idx as int == stage_prefix_idx(v));
    assert(compiler@ == stage_compiler(v));
    if n < idx + 2 {
        return Err(AutotestError::UsageError);
    }
    let stage_prefix = args[idx].clone();
    let mut command_tail: Vec<String> = Vec::new();
    let mut j: usize = idx + 1;
    while j < n
        invariant
            idx + 1 <= j <= n,
            n == args@.len(),
            v == views_of(args@),
            views_of(command_tail@) == v.subrange(idx + 1, j as int),
        decreases n - j,
    {
        let ghost prev = views_of(command_tail@);
        command_tail.push(args[j].clone());
        proof {
            assert(views_of(command_tail@) =~= prev.push(args@[j as int]@));
            assert(views_of(command_tail@) =~= v.subrange(idx + 1, j + 1));
        }
        j = j + 1;
    }
    proof {
        assert(v.subrange(idx + 1, n as int) =~= v.skip(idx as int + 1));
    }
    Ok(StageRequest { compiler, stage_prefix, command_tail })
}

/// The labels that match a stage prefix, kept in their original order.
pub open spec fn spec_matching_labels(labels: Seq<Seq<char>>, prefix: Seq<char>) -> Seq<Seq<char>>
    decreases labels.len(),
{
    if labels.len() == 0 {
        Seq::empty()
    } else {
        spec_matching_labels(labels.drop_last(), prefix) + if spec_starts_with(
            labels.last(),
            prefix,
        ) {
            seq![labels.last()]
        } else {
            Seq::empty()
        }
    }
}

/// Every label the filter keeps starts with the prefix.
pub proof fn lemma_matching_labels_start(labels: Seq<Seq<char>>, prefix: Seq<char>)
    ensures
        forall|k: int|
            0 <= k < spec_matching_labels(labels, prefix).len() ==> spec_starts_with(
                #[trigger] spec_matching_labels(labels, prefix)[k],
                prefix,
            ),
    decreases labels.len(),
{
    if labels.len() == 0 {
    } else {
        lemma_matching_labels_start(labels.drop_last(), prefix);
        let ml = spec_matching_labels(labels, prefix);
        let md = spec_matching_labels(labels.drop_last(), prefix);
        assert forall|k: int| 0 <= k < ml.len() implies spec_starts_with(ml[k], prefix) by {
            if k < md.len() {
                assert(ml[k] == md[k]);
            } else {
                assert(ml[k] == labels.last());
            }
        }
    }
}

/// Retain, in order, every label that starts with the stage prefix.
pub fn filter_labels(labels: &Vec<String>, prefix: &str) -> (r: Vec<String>)
    ensures
        views_of(r@) == spec_matching_labels(views_of(labels@), prefix@),
{
    let ghost lv = views_of(labels@);
    let n = labels.len();
    let mut r: Vec<String> = Vec::new();
    let mut i: usize = 0;
    while i < n
        invariant
            i <= n,
            n == labels@.len(),
            lv == views_of(labels@),
            views_of(r@) == spec_matching_labels(lv.take(i as int), prefix@),
        decreases n - i,
    {
        let ghost prev = views_of(r@);
        if starts_with_str(labels[i].as_str(), prefix) {
            r.push(labels[i].clone());
            proof {
                assert(views_of(r@) =~= prev.push(lv[i as int]));
            }
        }
        proof {
            assert(lv.take(i + 1).drop_last() =~= lv.take(i as int));
            assert(lv.take(i + 1).last() == lv[i as int]);
        }
        i = i + 1;
    }
    proof {
        assert(lv.take(n as int) =~= lv);
    }
    r
}

/// Select the labels for the staged run. The selection is empty exactly when
/// the run fails with `NoMatchingTests`, and the second invocation can then
/// never be built: success hands back the non-empty filtered selection.
pub fn select_stage_labels(labels: &Vec<String>, prefix: &str) -> (r: Result<
    Vec<String>,
    AutotestError,
>)
    ensures
        (r is Err) <==> spec_matching_labels(views_of(labels@), prefix@).len() == 0,
        r matches Ok(v) ==> views_of(v@) == spec_matching_labels(views_of(labels@), prefix@)
            && views_of(v@).len() > 0,
        r matches Err(e) ==> e matches AutotestError::NoMatchingTests(p) && p@ == prefix@,
{
    let run_labels = filter_labels(labels, prefix);
    if run_labels.is_empty() {
        Err(AutotestError::NoMatchingTests(prefix.to_owned()))
    } else {
        Ok(run_labels)
    }
}

/// The labels a `labels` array denotes: the string elements kept in the
/// array's order; an element that is not a string is passed over.
pub open spec fn spec_string_labels(elems: Seq<Option<Seq<char>>>) -> Seq<Seq<char>>
    decreases elems.len(),
{
    if elems.len() == 0 {
        Seq::empty()
    } else {
        spec_string_labels(elems.drop_last()) + match elems.last() {
            Some(l) => seq![l],
            None => Seq::empty(),
        }
    }
}

/// Interpret the discovery invocation's outcome: a nonzero exit propagates
/// the captured standard error as `DiscoveryFailed`; unparseable output is
/// `DiscoveryFailed` too; parsed output whose element 0 does not carry a
/// `labels` array is `ManifestShapeError`; otherwise the string elements of
/// that array come back, in order.
pub fn stage_labels(exit_ok: bool, stdout: &str, stderr: &str) -> (r: Result<
    Vec<String>,
    AutotestError,
>)
    ensures
        !exit_ok ==> (r matches Err(e) && e matches AutotestError::DiscoveryFailed(m) && m@
            == stderr@),
        exit_ok && !json_text_wellformed(stdout@) ==> (r matches Err(e) && e
            matches AutotestError::DiscoveryFailed(m) && m@ == "JSON parsing error"@),
        exit_ok && json_text_wellformed(stdout@) && discovery_labels_of(stdout@) is None ==> r
            == Err::<Vec<String>, AutotestError>(AutotestError::ManifestShapeError),
        exit_ok ==> (discovery_labels_of(stdout@) matches Some(elems) ==> (r matches Ok(v)
            && views_of(v@) == spec_string_labels(elems))),
{
    if !exit_ok {
        return Err(AutotestError::DiscoveryFailed(stderr.to_owned()));
    }
    match discovery_labels(stdout) {
        None => {
            if !json_wellformed(stdout) {
                Err(AutotestError::DiscoveryFailed("JSON parsing error".to_owned()))
            } else {
                Err(AutotestError::ManifestShapeError)
            }
        },
        Some(elems) => {
            let ghost ev = elems.deep_view();
            let n = elems.len();
            let mut labels: Vec<String> = Vec::new();
            let mut i: usize = 0;
            while i < n
                invariant
                    i <= n,
                    n == elems@.len(),
                    ev == elems.deep_view(),
                    views_of(labels@) == spec_string_labels(ev.take(i as int)),
                decreases n - i,
            {
                let ghost prev = views_of(labels@);
                match &elems[i] {
                    Some(label) => {
                        labels.push(label.clone());
                        proof {
                            assert(views_of(labels@) =~= prev.push(elems@[i as int]->0@));
                        }
                    },
                    None => {},
                }
                proof {
                    assert(ev.take(i + 1).drop_last() =~= ev.take(i as int));
                    assert(ev.take(i + 1).last() == ev[i as int]);
                }
                i = i + 1;
            }
            proof {
                assert(ev.take(n as int) =~= ev);
            }
            Ok(labels)
        },
    }
}

/// Plan the single-pass run: choose the compiler from the leading argument
/// and build one invocation carrying the remaining arguments.
pub fn plan_autotest(config: &ClassConfig, args: &[String], inherited_path: Option<&String>) -> (r:
    CommandSpec)
    requires
        config.wf(),
    ensures
        r.program@ == "python3"@,
        views_of(r.args@) == spec_base_argv(
            spec_session_dir(*config),
            spec_selected_compiler(views_of(args@)),
        ) + spec_remaining_args(views_of(args@)),
        r.path_var@ == spec_invocation_path_var(
            spec_session_dir(*config),
            match inherited_path {
                Some(p) => Some(p@),
                None => None,
            },
        ),
{
    let (compiler, remaining) = select_compiler(args);
    build_invocation(config, compiler, inherited_path, &remaining)
}

/// Plan the discovery invocation: the eventual run's command with the flag
/// that only enumerates applicable test labels appended.
pub fn plan_stage_discovery(
    config: &ClassConfig,
    req: &StageRequest,
    inherited_path: Option<&String>,
) -> (r: CommandSpec)
    requires
        config.wf(),
    ensures
        r.program@ == "python3"@,
        views_of(r.args@) == spec_base_argv(spec_session_dir(*config), req.compiler@) + views_of(
            req.command_tail@,
        ) + seq!["--print_test_names"@],
        r.path_var@ == spec_invocation_path_var(
            spec_session_dir(*config),
            match inherited_path {
                Some(p) => Some(p@),
                None => None,
            },
        ),
{
    let mut extra: Vec<String> = Vec::new();
    let n = req.command_tail.len();
    let mut i: usize = 0;
    while i < n
        invariant
            i <= n,
            n == req.command_tail@.len(),
            views_of(extra@) == views_of(req.command_tail@).subrange(0, i as int),
        decreases n - i,
    {
        let ghost prev = views_of(extra@);
        extra.push(req.command_tail[i].clone());
        proof {
            assert(views_of(extra@) =~= prev.push(req.command_tail@[i as int]@));
            assert(views_of(extra@) =~= views_of(req.command_tail@).subrange(0, i + 1));
        }
        i = i + 1;
    }
    let ghost tail = views_of(extra@);
    extra.push("--print_test_names".to_owned());
    proof {
        assert(views_of(req.command_tail@).subrange(0, n as int) =~= views_of(req.command_tail@));
        assert(views_of(extra@) =~= views_of(req.command_tail@) + seq!["--print_test_names"@]);
    }
    build_invocation(config, req.compiler.as_str(), inherited_path, &extra)
}

/// Plan the staged execution: the same base command and tail, with the
/// explicit selection flag and exactly the selected labels appended.
pub fn plan_stage_execution(
    config: &ClassConfig,
    req: &StageRequest,
    inherited_path: Option<&String>,
    run_labels: &Vec<String>,
) -> (r: CommandSpec)
    requires
        config.wf(),
    ensures
        r.program@ == "python3"@,
        views_of(r.args@) == spec_base_argv(spec_session_dir(*config), req.compiler@) + views_of(
            req.command_tail@,
        ) + seq!["-l"@] + views_of(run_labels@),
        r.path_var@ == spec_invocation_path_var(
            spec_session_dir(*config),
            match inherited_path {
                Some(p) => Some(p@),
                None => None,
            },
        ),
{
    let mut extra: Vec<String> = Vec::new();
    let n = req.command_tail.len();
    let mut i: usize = 0;
    while i < n
        invariant
            i <= n,
            n == req.command_tail@.len(),
            views_of(extra@) == views_of(req.command_tail@).subrange(0, i as int),
        decreases n - i,
    {
        let ghost prev = views_of(extra@);
        extra.push(req.command_tail[i].clone());
        proof {
            assert(views_of(extra@) =~= prev.push(req.command_tail@[i as int]@));
            assert(views_of(extra@) =~= views_of(req.command_tail@).subrange(0, i + 1));
        }
        i = i + 1;
    }
    extra.push("-l".to_owned());
    proof {
        assert(views_of(req.command_tail@).subrange(0, n as int) =~= views_of(req.command_tail@));
        assert(views_of(extra@) =~= views_of(req.command_tail@) + seq!["-l"@]);
    }
    let ghost mid = views_of(extra@);
    let m = run_labels.len();
    let mut k: usize = 0;
    while k < m
        invariant
            k <= m,
            m == run_labels@.len(),
            views_of(extra@) == mid + views_of(run_labels@).subrange(0, k as int),
        decreases m - k,
    {
        let ghost prev = views_of(extra@);
        extra.push(run_labels[k].clone());
        proof {
            assert(views_of(extra@) =~= prev.push(run_labels@[k as int]@));
            assert(views_of(extra@) =~= mid + views_of(run_labels@).subrange(0, k + 1));
        }
        k = k + 1;
    }
    proof {
        assert(views_of(run_labels@).subrange(0, m as int) =~= views_of(run_labels@));
    }
    build_invocation(config, req.compiler.as_str(), inherited_path, &extra)
}

/// Drive one staged run from the discovery outcome: interpret the discovery
/// output, select the labels matching the stage prefix, and build the second
/// invocation. The second invocation exists only when the selection is
/// non-empty, and then carries exactly the selected labels after `-l`.
pub fn plan_stage_from_discovery(
    config: &ClassConfig,
    req: &StageRequest,
    inherited_path: Option<&String>,
    exit_ok: bool,
    stdout: &str,
    stderr: &str,
) -> (r: Result<(CommandSpec, Vec<String>), AutotestError>)
    requires
        config.wf(),
    ensures
        !exit_ok ==> (r matches Err(e) && e matches AutotestError::DiscoveryFailed(m) && m@
            == stderr@),
        exit_ok && !json_text_wellformed(stdout@) ==> (r matches Err(e) && e
            matches AutotestError::DiscoveryFailed(m) && m@ == "JSON parsing error"@),
        exit_ok && json_text_wellformed(stdout@) && discovery_labels_of(stdout@) is None ==> r
            == Err::<(CommandSpec, Vec<String>), AutotestError>(AutotestError::ManifestShapeError),
        exit_ok ==> (discovery_labels_of(stdout@) matches Some(elems) ==> {
            let sel = spec_matching_labels(spec_string_labels(elems), req.stage_prefix@);
            if sel.len() == 0 {
                r matches Err(e) && e matches AutotestError::NoMatchingTests(p) && p@
                    == req.stage_prefix@
            } else {
                r matches Ok(p) && views_of(p.1@) == sel
            }
        }),
        r matches Ok(p) ==> {
            &&& views_of(p.1@).len() > 0
            &&& forall|k: int|
                0 <= k < views_of(p.1@).len() ==> spec_starts_with(
                    #[trigger] views_of(p.1@)[k],
                    req.stage_prefix@,
                )
            &&& p.0.program@ == "python3"@
            &&& views_of(p.0.args@) == spec_base_argv(spec_session_dir(*config), req.compiler@)
                + views_of(req.command_tail@) + seq!["-l"@] + views_of(p.1@)
            &&& p.0.path_var@ == spec_invocation_path_var(
                spec_session_dir(*config),
                match inherited_path {
                    Some(pv) => Some(pv@),
                    None => None,
                },
            )
        },
{
    let labels = match stage_labels(exit_ok, stdout, stderr) {
        Ok(l) => l,
        Err(e) => {
            return Err(e);
        },
    };
    let run_labels = match select_stage_labels(&labels, req.stage_prefix.as_str()) {
        Ok(l) => l,
        Err(e) => {
            return Err(e);
        },
    };
    proof {
        lemma_matching_labels_start(views_of(labels@), req.stage_prefix@);
    }
    let command = plan_stage_execution(config, req, inherited_path, &run_labels);
    Ok((command, run_labels))
}

/// Which runner a binary name selects.
#[derive(Debug, Clone, Copy, PartialEq, Eq, Structural)]
pub enum ToolKind {
    SinglePass,
    Staged,
}

/// The final `/`-separated component of an invocation name.
pub open spec fn spec_basename(s: Seq<char>) -> Seq<char> {
    match spec_rfind(s, '/') {
        None => s,
        Some(i) => s.skip(i + 1),
    }
}

/// Decide which runner to back from the name the binary was called as:
/// `autotest` is the single-pass runner, `autotest-stage` the staged one.
pub fn classify_tool(arg0: &str) -> (r: Option<ToolKind>)
    ensures
        spec_basename(arg0@) == "autotest"@ ==> r == Some(ToolKind::SinglePass),
        spec_basename(arg0@) == "autotest-stage"@ ==> r == Some(ToolKind::Staged),
        spec_basename(arg0@) != "autotest"@ && spec_basename(arg0@) != "autotest-stage"@ ==> r
            is None,
{
    proof {
        reveal_strlit("autotest");
        reveal_strlit("autotest-stage");
    }
    let len = arg0.unicode_len();
    let base: &str = match rfind_char(arg0, '/') {
        None => arg0,
        Some(i) => {
            proof {
                crate::strutil::lemma_rfind_props(arg0@, '/');
                assert(arg0@.subrange(i + 1, len as int) =~= arg0@.skip(i + 1));
            }
            arg0.substring_char(i + 1, len)
        },
    };
    proof {
        assert("autotest"@.len() == 8);
        assert("autotest-stage"@.len() == 14);
    }
    if str_eq(base, "autotest") {
        Some(ToolKind::SinglePass)
    } else if str_eq(base, "autotest-stage") {
        Some(ToolKind::Staged)
    } else {
        None
    }
}

/// The directory `n` ancestor levels above a path.
pub open spec fn spec_ancestor_dir(p: Seq<char>, n: nat) -> Seq<char>
    decreases n,
{
    if n == 0 {
        p
    } else {
        spec_parent_dir(spec_ancestor_dir(p, (n - 1) as nat))
    }
}

/// The overlay file location for a tool: `config.sh` in the directory the
/// given number of ancestor levels above the tool's real path. The two tools
/// using the resolver differ by exactly one level.
pub fn overlay_file_path(real_path: &str, levels_up: usize) -> (r: String)
    ensures
        r@ == spec_join_path(spec_ancestor_dir(real_path@, levels_up as nat), "config.sh"@),
{
    let mut dir: String = real_path.to_owned();
    let mut k: usize = 0;
    while k < levels_up
        invariant
            k <= levels_up,
            dir@ == spec_ancestor_dir(real_path@, k as nat),
        decreases levels_up - k,
    {
        dir = parent_dir(dir.as_str());
        k = k + 1;
    }
    join_path(dir.as_str(), "config.sh")
}

} // verus!
