//! The commands that ask a host for its metrics.

use vstd::prelude::*;

use crate::config::schema::ShellType;
use crate::text::{concat3, texts};

pub mod cmd;
pub mod powershell;
pub mod sh;

verus! {

/// The steps for those metrics that have a command, in their order.
pub open spec fn steps(
    metrics: Seq<Seq<char>>,
    command: spec_fn(Seq<char>) -> Seq<char>,
    step: spec_fn(Seq<char>) -> Seq<char>,
) -> Seq<Seq<char>>
    decreases metrics.len(),
{
    if metrics.len() == 0 {
        Seq::empty()
    } else {
        let before = steps(metrics.drop_last(), command, step);
        if command(metrics.last()).len() > 0 {
            before.push(step(metrics.last()))
        } else {
            before
        }
    }
}

/// The steps for paths, each a path and its label.
pub open spec fn path_steps(
    paths: Seq<(String, String)>,
    step: spec_fn(Seq<char>, Seq<char>) -> Seq<char>,
) -> Seq<Seq<char>> {
    Seq::new(paths.len(), |i: int| step(paths[i].0@, paths[i].1@))
}

/// The command that asks for a metric on a kind of shell.
pub open spec fn probe(shell: ShellType, metric: Seq<char>) -> Seq<char> {
    match shell {
        ShellType::Sh => sh::command(metric),
        ShellType::PowerShell => powershell::command(metric),
        ShellType::Cmd => cmd::command(metric),
    }
}

/// The command that asks for a metric; empty for an unknown one.
pub fn command_for(shell: ShellType, metric: &str) -> (r: String)
    ensures
        r@ == probe(shell, metric@),
{
    match shell {
        ShellType::Sh => sh::command_for(metric),
        ShellType::PowerShell => powershell::command_for(metric),
        ShellType::Cmd => cmd::command_for(metric),
    }
}

/// The command that measures one path.
pub open spec fn path_probe(shell: ShellType, path: Seq<char>) -> Seq<char> {
    match shell {
        ShellType::Sh => "du -sb "@ + path + " 2>/dev/null"@,
        ShellType::PowerShell => "(Get-ChildItem -Recurse -File '"@ + path
            + "' | Measure-Object -Property Length -Sum).Sum"@,
        ShellType::Cmd => "dir /s /a \""@ + path + "\" 2>nul"@,
    }
}

/// The command that measures one path.
pub fn path_size_command(shell: ShellType, path: &str) -> (r: String)
    ensures
        r@ == path_probe(shell, path@),
{
    match shell {
        ShellType::Sh => concat3("du -sb ", path, " 2>/dev/null"),
        ShellType::PowerShell => concat3(
            "(Get-ChildItem -Recurse -File '",
            path,
            "' | Measure-Object -Property Length -Sum).Sum",
        ),
        ShellType::Cmd => concat3("dir /s /a \"", path, "\" 2>nul"),
    }
}

/// The command that asks for many metrics at once.
pub open spec fn batch(shell: ShellType, metrics: Seq<Seq<char>>) -> Seq<char> {
    match shell {
        ShellType::Sh => sh::batch(metrics),
        ShellType::PowerShell => powershell::batch(metrics),
        ShellType::Cmd => cmd::batch(metrics),
    }
}

/// Builds one command that asks for every known metric.
pub fn batch_command(shell: ShellType, metrics: &[String]) -> (r: String)
    ensures
        r@ == batch(shell, texts(metrics@)),
{
    match shell {
        ShellType::Sh => sh::batch_command(metrics),
        ShellType::PowerShell => powershell::batch_command(metrics),
        ShellType::Cmd => cmd::batch_command(metrics),
    }
}

/// The command that measures many paths at once.
pub open spec fn path_batch(shell: ShellType, paths: Seq<(String, String)>) -> Seq<char> {
    match shell {
        ShellType::Sh => sh::path_batch(paths),
        ShellType::PowerShell => powershell::path_batch(paths),
        ShellType::Cmd => cmd::path_batch(paths),
    }
}

/// Builds one command that measures every path.
pub fn batch_path_command(shell: ShellType, paths: &[(String, String)]) -> (r: String)
    ensures
        r@ == path_batch(shell, paths@),
{
    match shell {
        ShellType::Sh => sh::batch_path_command(paths),
        ShellType::PowerShell => powershell::batch_path_command(paths),
        ShellType::Cmd => cmd::batch_path_command(paths),
    }
}

// ---------------------------------------------------------------------------
// Laws
// ---------------------------------------------------------------------------

/// Each metric with a command has its step in a batch, in the order of the metrics.
pub proof fn metrics_with_a_command_have_a_step(
    metrics: Seq<Seq<char>>,
    command: spec_fn(Seq<char>) -> Seq<char>,
    step: spec_fn(Seq<char>) -> Seq<char>,
) -> (at: Seq<int>)
    ensures
        forall|i: int, j: int|
            0 <= i < j < at.len() ==> #[trigger] at[i] < #[trigger] at[j],
        forall|k: int| #[trigger] at.contains(k) <==> 0 <= k < metrics.len()
            && command(metrics[k]).len() > 0,
        steps(metrics, command, step).len() == at.len(),
        forall|i: int|
            0 <= i < at.len() ==> #[trigger] steps(metrics, command, step)[i]
                == step(metrics[at[i]]),
    decreases metrics.len(),
{
    if metrics.len() == 0 {
        Seq::empty()
    } else {
        let rest = metrics.drop_last();
        let n = metrics.len() - 1;
        let before = metrics_with_a_command_have_a_step(rest, command, step);
        assert forall|i: int| 0 <= i < before.len() implies 0 <= #[trigger] before[i] < n by {
            assert(before.contains(before[i]));
        }
        let keep = command(metrics[n]).len() > 0;
        let at = if keep {
            before.push(n)
        } else {
            before
        };
        assert forall|k: int| #[trigger] at.contains(k) <==> 0 <= k < metrics.len()
            && command(metrics[k]).len() > 0 by {
            assert(before.contains(k) <==> 0 <= k < n && command(rest[k]).len() > 0);
            if keep {
                assert(at[before.len() as int] == n);
                if before.contains(k) {
                    assert(at[before.index_of(k)] == k);
                }
                if at.contains(k) && k != n {
                    assert(before[at.index_of(k)] == k);
                }
            }
        }
        assert forall|i: int| 0 <= i < at.len()
            implies #[trigger] steps(metrics, command, step)[i] == step(metrics[at[i]]) by {
            if i < before.len() {
                assert(steps(rest, command, step)[i] == step(rest[before[i]]));
            }
        }
        at
    }
}

} // verus!
