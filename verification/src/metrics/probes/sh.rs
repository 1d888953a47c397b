//! Probe commands for POSIX shells.

use vstd::prelude::*;

use crate::metrics::probes::{path_steps, steps};
use crate::scan::{join, join_all};
use crate::text::{chars_of, concat3, copy, same, texts, texts_push};

verus! {

broadcast use texts_push;

/// The command that asks for a metric; empty for an unknown one.
pub open spec fn command(metric: Seq<char>) -> Seq<char> {
    if metric == "online"@ {
        "echo ok"@
    } else if metric == "system_info"@ {
        "uname -a && hostname"@
    } else if metric == "cpu_arch"@ {
        "uname -m"@
    } else if metric == "memory"@ {
        "free -b 2>/dev/null || vm_stat 2>/dev/null"@
    } else if metric == "swap"@ {
        "free -b 2>/dev/null"@
    } else if metric == "disk"@ {
        "df -B1 2>/dev/null || df -k"@
    } else if metric == "cpu_load"@ {
        "cat /proc/loadavg 2>/dev/null || sysctl -n vm.loadavg 2>/dev/null"@
    } else if metric == "network"@ {
        "ip -j addr 2>/dev/null || ifconfig 2>/dev/null"@
    } else if metric == "battery"@ {
        "cat /sys/class/power_supply/BAT0/capacity 2>/dev/null || pmset -g batt 2>/dev/null || echo"@
    } else if metric == "ip_address"@ {
        "hostname -I 2>/dev/null || (ifconfig 2>/dev/null | grep 'inet ' | awk '{print $2}' | grep -v '127.0.0.1' | tr '\\n' ' ')"@
    } else {
        Seq::empty()
    }
}

/// The command that asks for a metric; empty for an unknown one.
pub fn command_for(metric: &str) -> (r: String)
    ensures
        r@ == command(metric@),
{
    if same(metric, "online") {
        copy("echo ok")
    } else if same(metric, "system_info") {
        copy("uname -a && hostname")
    } else if same(metric, "cpu_arch") {
        copy("uname -m")
    } else if same(metric, "memory") {
        copy("free -b 2>/dev/null || vm_stat 2>/dev/null")
    } else if same(metric, "swap") {
        copy("free -b 2>/dev/null")
    } else if same(metric, "disk") {
        copy("df -B1 2>/dev/null || df -k")
    } else if same(metric, "cpu_load") {
        copy("cat /proc/loadavg 2>/dev/null || sysctl -n vm.loadavg 2>/dev/null")
    } else if same(metric, "network") {
        copy("ip -j addr 2>/dev/null || ifconfig 2>/dev/null")
    } else if same(metric, "battery") {
        copy("cat /sys/class/power_supply/BAT0/capacity 2>/dev/null || pmset -g batt 2>/dev/null || echo")
    } else if same(metric, "ip_address") {
        copy("hostname -I 2>/dev/null || (ifconfig 2>/dev/null | grep 'inet ' | awk '{print $2}' | grep -v '127.0.0.1' | tr '\\n' ' ')")
    } else {
        String::new()
    }
}

/// The part of a batch that prints the marker of a metric and asks for it.
pub open spec fn step(metric: Seq<char>) -> Seq<char> {
    "echo '---METRIC:"@ + metric + "'; { "@ + command(metric) + "; } 2>&1"@
}

fn build_step(metric: &str, cmd: &str) -> (r: String)
    requires
        cmd@ == command(metric@),
    ensures
        r@ == step(metric@),
{
    let mut out = concat3("echo '---METRIC:", metric, "'; { ");
    out.append(cmd);
    out.append("; } 2>&1");
    out
}

/// One command that asks for every known metric, each after its marker.
pub open spec fn batch(metrics: Seq<Seq<char>>) -> Seq<char> {
    join(steps(metrics, |m: Seq<char>| command(m), |m: Seq<char>| step(m)), "; "@)
}

/// Builds one command that asks for every known metric, each after its marker.
pub fn batch_command(metrics: &[String]) -> (r: String)
    ensures
        r@ == batch(texts(metrics@)),
{
    let ghost all = texts(metrics@);
    let ghost c = |m: Seq<char>| command(m);
    let ghost s = |m: Seq<char>| step(m);
    let mut parts: Vec<String> = Vec::new();
    let mut i: usize = 0;
    assert(texts(parts@) =~= steps(all.take(0), c, s));
    while i < metrics.len()
        invariant
            i <= metrics.len(),
            all == texts(metrics@),
            c == (|m: Seq<char>| command(m)),
            s == (|m: Seq<char>| step(m)),
            texts(parts@) == steps(all.take(i as int), c, s),
        decreases metrics.len() - i,
    {
        assert(all.take(i + 1).drop_last() =~= all.take(i as int));
        assert(all.take(i + 1).last() == metrics@[i as int]@);
        let cmd = command_for(metrics[i].as_str());
        if chars_of(cmd.as_str()).len() > 0 {
            parts.push(build_step(metrics[i].as_str(), cmd.as_str()));
        }
        i += 1;
    }
    assert(all.take(i as int) =~= all);
    join_all(parts.as_slice(), "; ")
}

/// The part of a batch that prints the marker of a path and measures it.
pub open spec fn path_step(path: Seq<char>, label: Seq<char>) -> Seq<char> {
    "echo '---PATH:"@ + label + "'; du -sb "@ + path + " 2>/dev/null || echo MISSING"@
}

fn build_path_step(path: &str, label: &str) -> (r: String)
    ensures
        r@ == path_step(path@, label@),
{
    let mut out = concat3("echo '---PATH:", label, "'; du -sb ");
    out.append(path);
    out.append(" 2>/dev/null || echo MISSING");
    out
}

/// One command that measures every path, each after its marker.
pub open spec fn path_batch(paths: Seq<(String, String)>) -> Seq<char> {
    join(path_steps(paths, |p: Seq<char>, l: Seq<char>| path_step(p, l)), "; "@)
}

/// Builds one command that measures every path, each after its marker.
pub fn batch_path_command(paths: &[(String, String)]) -> (r: String)
    ensures
        r@ == path_batch(paths@),
{
    let ghost s = |p: Seq<char>, l: Seq<char>| path_step(p, l);
    let mut parts: Vec<String> = Vec::new();
    let mut i: usize = 0;
    while i < paths.len()
        invariant
            i <= paths.len(),
            s == (|p: Seq<char>, l: Seq<char>| path_step(p, l)),
            texts(parts@) == path_steps(paths@, s).take(i as int),
        decreases paths.len() - i,
    {
        parts.push(build_path_step(paths[i].0.as_str(), paths[i].1.as_str()));
        i += 1;
        assert(texts(parts@) =~= path_steps(paths@, s).take(i as int));
    }
    assert(path_steps(paths@, s).take(i as int) =~= path_steps(paths@, s));
    join_all(parts.as_slice(), "; ")
}

// ---------------------------------------------------------------------------
// Laws
// ---------------------------------------------------------------------------

/// A step prints the marker with the name of its metric, and then runs the command for it.
pub proof fn steps_announce_their_metric(metric: Seq<char>)
    ensures
        step(metric) == "echo '"@ + ("---METRIC:"@ + metric) + "'; { "@ + command(metric)
            + "; } 2>&1"@,
{
    reveal_strlit("echo '---METRIC:");
    reveal_strlit("echo '");
    reveal_strlit("---METRIC:");
    assert("echo '---METRIC:"@ =~= "echo '"@ + "---METRIC:"@);
    assert(step(metric) =~= "echo '"@ + ("---METRIC:"@ + metric) + "'; { "@ + command(metric)
        + "; } 2>&1"@);
}

/// The marker in front of a path's size holds the label of the path, and the size is taken
/// of the path itself.
pub proof fn path_steps_announce_their_label(
    path: Seq<char>,
    label: Seq<char>,
) -> (rest: (Seq<char>, Seq<char>))
    ensures
        path_step(path, label) == "echo '"@ + ("---PATH:"@ + label) + rest.0 + path + rest.1,
{
    reveal_strlit("echo '---PATH:");
    reveal_strlit("echo '");
    reveal_strlit("---PATH:");
    assert("echo '---PATH:"@ =~= "echo '"@ + "---PATH:"@);
    let a = "'; du -sb "@;
    let b = " 2>/dev/null || echo MISSING"@;
    assert(path_step(path, label) =~= "echo '"@ + ("---PATH:"@ + label) + a + path + b);
    (a, b)
}

} // verus!
