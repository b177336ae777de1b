//! Deciding what to run for a given command, and how.
use vstd::prelude::*;

use crate::routing::{
    benign_nonzero, classify, command_key, command_label, filter_for, is_benign_key, keyed_filter,
    law_benign_keys_are_those_of_three_filters, tee_name, Filter,
};
use crate::shell::{command_line, law_line_reads_back_as_arguments, shell_join, shell_words};
use crate::text::{notice, notice_text, optional_text, prefixed, same_text, texts};

verus! {

/// Why a command cannot be run.
#[derive(Clone, Copy, Debug, PartialEq, Eq, Structural)]
pub enum UsageError {
    /// There is no word at all.
    NoCommand,
    /// Nothing follows `proxy`.
    NoProxyCommand,
    /// Nothing follows `err`.
    NoErrCommand,
}

/// The message that an error is shown with.
pub open spec fn usage_message(error: UsageError) -> Seq<char> {
    match error {
        UsageError::NoCommand => "No command provided"@,
        UsageError::NoProxyCommand => "No command provided to 'proxy'"@,
        UsageError::NoErrCommand => "No command provided to 'err'"@,
    }
}

impl UsageError {
    /// The message to show.
    pub fn message(&self) -> (text: &'static str)
        ensures
            text@ == usage_message(*self),
    {
        match self {
            UsageError::NoCommand => "No command provided",
            UsageError::NoProxyCommand => "No command provided to 'proxy'",
            UsageError::NoErrCommand => "No command provided to 'err'",
        }
    }
}

/// A command to run with its output filtered.
#[derive(Debug, PartialEq, Eq)]
pub struct FilteredRun {
    /// What `sh -c` is to run.
    pub command: String,
    /// The label of the full output and of the recorded metrics.
    pub label: String,
    pub filter: Filter,
    /// Whether the filter still runs when the command exits non-zero.
    pub filter_on_failure: bool,
    /// What to tell the user beforehand.
    pub notice: Option<String>,
}

/// A command to run with its output passed on as it is.
#[derive(Debug, PartialEq, Eq)]
pub struct ProxyRun {
    /// What `sh -c` is to run.
    pub command: String,
    /// The name that the run is recorded under.
    pub recorded_as: String,
    /// What to tell the user beforehand.
    pub notice: Option<String>,
}

/// What to do for a command.
#[derive(Debug, PartialEq, Eq)]
pub enum Action {
    Filtered(FilteredRun),
    Proxy(ProxyRun),
}

/// The texts and choices of a `FilteredRun`.
pub struct FilteredPlan {
    pub command: Seq<char>,
    pub label: Seq<char>,
    pub filter: Filter,
    pub filter_on_failure: bool,
    pub notice: Option<Seq<char>>,
}

/// The texts of a `ProxyRun`.
pub struct ProxyPlan {
    pub command: Seq<char>,
    pub recorded_as: Seq<char>,
    pub notice: Option<Seq<char>>,
}

/// The plan that an `Action` stands for.
pub enum Plan {
    Filtered(FilteredPlan),
    Proxy(ProxyPlan),
}

impl View for FilteredRun {
    type V = FilteredPlan;

    open spec fn view(&self) -> FilteredPlan {
        FilteredPlan {
            command: self.command@,
            label: self.label@,
            filter: self.filter,
            filter_on_failure: self.filter_on_failure,
            notice: optional_text(self.notice),
        }
    }
}

impl View for ProxyRun {
    type V = ProxyPlan;

    open spec fn view(&self) -> ProxyPlan {
        ProxyPlan {
            command: self.command@,
            recorded_as: self.recorded_as@,
            notice: optional_text(self.notice),
        }
    }
}

impl View for Action {
    type V = Plan;

    open spec fn view(&self) -> Plan {
        match self {
            Action::Filtered(run) => Plan::Filtered(run@),
            Action::Proxy(run) => Plan::Proxy(run@),
        }
    }
}

/// The plan for a command that is run with its output filtered.
pub open spec fn filtered_plan(
    command: Seq<char>,
    label: Seq<char>,
    filter: Filter,
    filter_on_failure: bool,
    verbose: u8,
) -> FilteredPlan {
    FilteredPlan {
        command,
        label,
        filter,
        filter_on_failure,
        notice: notice_text(verbose, "[otk] Running: "@, command),
    }
}

/// The plan for what follows `proxy`.
pub open spec fn proxy_plan(args: Seq<Seq<char>>, verbose: u8) -> Result<ProxyPlan, UsageError> {
    if args.len() == 0 {
        Err(UsageError::NoProxyCommand)
    } else {
        let command = command_line(args);
        Ok(
            ProxyPlan {
                command,
                recorded_as: "otk proxy "@ + command,
                notice: notice_text(verbose, "[otk] Proxy: "@, command),
            },
        )
    }
}

/// The plan for a command. A leading `proxy` or `err` is a modifier and not part
/// of the command.
pub open spec fn command_plan(args: Seq<Seq<char>>, verbose: u8) -> Result<Plan, UsageError> {
    if args.len() == 0 {
        Err(UsageError::NoCommand)
    } else if args[0] == "proxy"@ {
        match proxy_plan(args.skip(1), verbose) {
            Ok(plan) => Ok(Plan::Proxy(plan)),
            Err(error) => Err(error),
        }
    } else if args[0] == "err"@ {
        if args.len() < 2 {
            Err(UsageError::NoErrCommand)
        } else {
            Ok(
                Plan::Filtered(
                    filtered_plan(
                        command_line(args.skip(1)),
                        "err"@,
                        Filter::Error,
                        true,
                        verbose,
                    ),
                ),
            )
        }
    } else {
        let key = command_key(args);
        Ok(
            Plan::Filtered(
                filtered_plan(
                    command_line(args),
                    command_label(args),
                    keyed_filter(key),
                    is_benign_key(key),
                    verbose,
                ),
            ),
        )
    }
}

/// The words behind the first one.
fn rest(args: &[String]) -> (tail: &[String])
    requires
        args@.len() > 0,
    ensures
        texts(tail@) == texts(args@).skip(1),
{
    let tail = args.split_at(1).1;
    assert(texts(tail@) == texts(args@).skip(1));
    tail
}

/// Plans a run without filtering, which is recorded for its metrics only.
pub fn run_proxy(args: &[String], verbose: u8) -> (run: Result<ProxyRun, UsageError>)
    ensures
        match run {
            Ok(plan) => proxy_plan(texts(args@), verbose) == Ok::<ProxyPlan, UsageError>(plan@),
            Err(error) => proxy_plan(texts(args@), verbose) == Err::<ProxyPlan, UsageError>(error),
        },
{
    if args.is_empty() {
        return Err(UsageError::NoProxyCommand);
    }
    let command = shell_join(args);
    let recorded_as = prefixed("otk proxy ", command.as_str());
    let notice = notice(verbose, "[otk] Proxy: ", command.as_str());
    Ok(ProxyRun { command, recorded_as, notice })
}

/// Plans a command: handles the modifiers `proxy` and `err`, and otherwise gives
/// the command the filter that it is classified for.
pub fn run_command(args: &[String], verbose: u8) -> (action: Result<Action, UsageError>)
    ensures
        match action {
            Ok(plan) => command_plan(texts(args@), verbose) == Ok::<Plan, UsageError>(plan@),
            Err(error) => command_plan(texts(args@), verbose) == Err::<Plan, UsageError>(error),
        },
{
    if args.is_empty() {
        return Err(UsageError::NoCommand);
    }
    let modifier = args[0].as_str();
    if same_text(modifier, "proxy") {
        return match run_proxy(rest(args), verbose) {
            Ok(run) => Ok(Action::Proxy(run)),
            Err(error) => Err(error),
        };
    }
    if same_text(modifier, "err") {
        if args.len() < 2 {
            return Err(UsageError::NoErrCommand);
        }
        let command = shell_join(rest(args));
        let notice = notice(verbose, "[otk] Running: ", command.as_str());
        return Ok(
            Action::Filtered(
                FilteredRun {
                    command,
                    label: "err".to_owned(),
                    filter: Filter::Error,
                    filter_on_failure: true,
                    notice,
                },
            ),
        );
    }
    let key = classify(args);
    let command = shell_join(args);
    let notice = notice(verbose, "[otk] Running: ", command.as_str());
    Ok(
        Action::Filtered(
            FilteredRun {
                command,
                label: tee_name(args),
                filter: filter_for(key),
                filter_on_failure: benign_nonzero(key),
                notice,
            },
        ),
    )
}

/// A command is refused only where no word of it is given: with no words at
/// all, or with `proxy` or `err` alone.
pub proof fn law_only_a_missing_command_is_refused(args: Seq<Seq<char>>, verbose: u8)
    ensures
        command_plan(args, verbose) is Err <==> args.len() == 0 || (args.len() == 1 && (args[0]
            == "proxy"@ || args[0] == "err"@)),
{
}

/// The shell is handed a command of several words as exactly these words. A
/// modifier is left out, and with it the words behind it are handed on.
pub proof fn law_command_runs_as_given(args: Seq<Seq<char>>, verbose: u8)
    requires
        args.len() > 0,
    ensures
        match command_plan(args, verbose) {
            Ok(Plan::Proxy(plan)) => args[0] == "proxy"@ && (args.len() != 2 ==> shell_words(
                plan.command,
            ) == Some(args.skip(1))),
            Ok(Plan::Filtered(plan)) => if args[0] == "err"@ {
                args.len() != 2 ==> shell_words(plan.command) == Some(args.skip(1))
            } else {
                args.len() != 1 ==> shell_words(plan.command) == Some(args)
            },
            Err(_) => true,
        },
{
    if args.len() != 1 {
        law_line_reads_back_as_arguments(args);
    }
    if args.len() != 2 {
        law_line_reads_back_as_arguments(args.skip(1));
    }
}

/// A single word is run as the whole command string that it is, alone or behind
/// a modifier.
pub proof fn law_single_word_runs_untouched(word: Seq<char>, modifier: Seq<char>, verbose: u8)
    requires
        modifier == "proxy"@ || modifier == "err"@,
    ensures
        word != "proxy"@ && word != "err"@ ==> (command_plan(seq![word], verbose) matches Ok(
            Plan::Filtered(plan),
        ) && plan.command == word),
        match command_plan(seq![modifier, word], verbose) {
            Ok(Plan::Proxy(plan)) => plan.command == word,
            Ok(Plan::Filtered(plan)) => plan.command == word,
            Err(_) => false,
        },
{
    assert(seq![modifier, word].skip(1) == seq![word]);
}

/// A filter is let at the output of a failed command just where it is made for
/// that: the filters for tests, searches and listings, and the one for errors.
pub proof fn law_leave_to_see_failures_follows_filter(args: Seq<Seq<char>>, verbose: u8)
    ensures
        command_plan(args, verbose) matches Ok(Plan::Filtered(plan)) ==> (plan.filter_on_failure
            <==> plan.filter is Test || plan.filter is Grep || plan.filter is Ls
            || plan.filter is Error),
{
    law_benign_keys_are_those_of_three_filters(command_key(args));
}

/// Asking for more output changes nothing but the notice.
pub proof fn law_verbosity_changes_the_notice_only(
    args: Seq<Seq<char>>,
    verbose: u8,
    other: u8,
)
    ensures
        match (command_plan(args, verbose), command_plan(args, other)) {
            (Ok(Plan::Filtered(a)), Ok(Plan::Filtered(b))) => a == (FilteredPlan {
                notice: a.notice,
                ..b
            }),
            (Ok(Plan::Proxy(a)), Ok(Plan::Proxy(b))) => a == (ProxyPlan { notice: a.notice, ..b }),
            (Err(a), Err(b)) => a == b,
            _ => false,
        },
{
}

/// The three messages.
pub proof fn law_each_error_has_its_message(error: UsageError)
    ensures
        error is NoCommand ==> usage_message(error) == "No command provided"@,
        error is NoProxyCommand ==> usage_message(error) == "No command provided to 'proxy'"@,
        error is NoErrCommand ==> usage_message(error) == "No command provided to 'err'"@,
{
}

/// A plan agrees with its run in every field.
pub proof fn law_plans_agree_with_runs(run: FilteredRun, proxy: ProxyRun)
    ensures
        run@.command == run.command@,
        run@.label == run.label@,
        run@.filter == run.filter,
        run@.filter_on_failure == run.filter_on_failure,
        run@.notice == optional_text(run.notice),
        proxy@.command == proxy.command@,
        proxy@.recorded_as == proxy.recorded_as@,
        proxy@.notice == optional_text(proxy.notice),
        Action::Filtered(run)@ == Plan::Filtered(run@),
        Action::Proxy(proxy)@ == Plan::Proxy(proxy@),
{
}

/// Each error comes with just one list of words: none at all, `proxy` alone, or
/// `err` alone.
pub proof fn law_each_error_has_one_cause(args: Seq<Seq<char>>, verbose: u8)
    ensures
        command_plan(args, verbose) == Err::<Plan, UsageError>(UsageError::NoCommand)
            <==> args.len() == 0,
        command_plan(args, verbose) == Err::<Plan, UsageError>(UsageError::NoProxyCommand)
            <==> args == seq!["proxy"@],
        command_plan(args, verbose) == Err::<Plan, UsageError>(UsageError::NoErrCommand)
            <==> args == seq!["err"@],
        proxy_plan(args, verbose) is Err <==> args.len() == 0,
{
    reveal_strlit("proxy");
    reveal_strlit("err");
    assert("proxy"@.len() == 5 && "err"@.len() == 3);
    assert(args.len() == 1 && args[0] == "proxy"@ ==> args =~= seq!["proxy"@]);
    assert(args.len() == 1 && args[0] == "err"@ ==> args =~= seq!["err"@]);
}

/// Whatever follows `proxy` is run as its line, recorded under `otk proxy`, and
/// announced only where more output was asked for.
pub proof fn law_proxy_passes_the_line_on(args: Seq<Seq<char>>, verbose: u8)
    requires
        args.len() >= 1,
    ensures
        proxy_plan(args, verbose) matches Ok(plan) && {
            &&& plan.command == command_line(args)
            &&& plan.recorded_as == "otk proxy "@ + command_line(args)
            &&& verbose == 0 ==> plan.notice is None
            &&& verbose > 0 ==> plan.notice == Some("[otk] Proxy: "@ + command_line(args))
        },
        command_plan(seq!["proxy"@] + args, verbose) matches Ok(Plan::Proxy(plan)) && Ok::<
            ProxyPlan,
            UsageError,
        >(plan) == proxy_plan(args, verbose),
{
    let words = seq!["proxy"@] + args;
    assert(words[0] == "proxy"@);
    assert(words.skip(1) == args);
}

/// Whatever follows `err` is run as its line under the label `err`, with the
/// filter for errors, which sees failures too.
pub proof fn law_err_filters_the_errors_of_any_command(args: Seq<Seq<char>>, verbose: u8)
    requires
        args.len() >= 1,
    ensures
        command_plan(seq!["err"@] + args, verbose) matches Ok(Plan::Filtered(plan)) && {
            &&& plan.command == command_line(args)
            &&& plan.label == "err"@
            &&& plan.filter == Filter::Error
            &&& plan.filter_on_failure
            &&& verbose == 0 ==> plan.notice is None
            &&& verbose > 0 ==> plan.notice == Some("[otk] Running: "@ + command_line(args))
        },
{
    reveal_strlit("proxy");
    reveal_strlit("err");
    assert("proxy"@.len() == 5 && "err"@.len() == 3);
    let words = seq!["err"@] + args;
    assert(words[0] == "err"@);
    assert(words.skip(1) == args);
}

/// Any other command is run as its line under its own label, with the filter of
/// its key, which sees failures just for `test`, `grep` and `ls`.
pub proof fn law_other_commands_get_the_filter_of_their_key(args: Seq<Seq<char>>, verbose: u8)
    requires
        args.len() >= 1,
        args[0] != "proxy"@,
        args[0] != "err"@,
    ensures
        command_plan(args, verbose) matches Ok(Plan::Filtered(plan)) && {
            &&& plan.command == command_line(args)
            &&& plan.label == command_label(args)
            &&& plan.filter == keyed_filter(command_key(args))
            &&& plan.filter_on_failure <==> command_key(args) == "test"@ || command_key(args)
                == "grep"@ || command_key(args) == "ls"@
            &&& verbose == 0 ==> plan.notice is None
            &&& verbose > 0 ==> plan.notice == Some("[otk] Running: "@ + command_line(args))
        },
{
}

}
