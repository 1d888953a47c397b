//! Probe commands for the Windows command prompt.

use vstd::prelude::*;

use crate::metrics::probes::{path_steps, steps};
use crate::scan::{join, join_all};
use crate::text::{chars_of, concat3, copy, same, texts, texts_push};

verus! {

broadcast use texts_push;

/// The command that asks for a metric; empty for an unknown one.
pub open spec fn command(metric: Seq<char>) -> Seq<char> {
    if metric == "online"@ {
        "echo ok"@
    } else if metric == "system_info"@ {
        "systeminfo"@
    } else if metric == "cpu_arch"@ {
        "wmic cpu get AddressWidth /value"@
    } else if metric == "memory"@ {
        "wmic OS get FreePhysicalMemory,TotalVisibleMemorySize /value"@
    } else if metric == "swap"@ {
        "wmic pagefile get AllocatedBaseSize,CurrentUsage /value"@
    } else if metric == "disk"@ {
        "wmic logicaldisk get size,freespace,caption /value"@
    } else if metric == "cpu_load"@ {
        "wmic cpu get LoadPercentage /value"@
    } else if metric == "network"@ {
        "ipconfig"@
    } else if metric == "battery"@ {
        "wmic path Win32_Battery get EstimatedChargeRemaining /value"@
    } else if metric == "ip_address"@ {
        "for /f \"tokens=2 delims=:\" %a in ('ipconfig ^| findstr /i \"IPv4\"') do @echo %a"@
    } else {
        Seq::empty()
    }
}

/// The command that asks for a metric; empty for an unknown one.
pub fn command_for(metric: &str) -> (r: String)
    ensures
        r@ == command(metric@),
{
    if same(metric, "online") {
        copy("echo ok")
    } else if same(metric, "system_info") {
        copy("systeminfo")
    } else if same(metric, "cpu_arch") {
        copy("wmic cpu get AddressWidth /value")
    } else if same(metric, "memory") {
        copy("wmic OS get FreePhysicalMemory,TotalVisibleMemorySize /value")
    } else if same(metric, "swap") {
        copy("wmic pagefile get AllocatedBaseSize,CurrentUsage /value")
    } else if same(metric, "disk") {
        copy("wmic logicaldisk get size,freespace,caption /value")
    } else if same(metric, "cpu_load") {
        copy("wmic cpu get LoadPercentage /value")
    } else if same(metric, "network") {
        copy("ipconfig")
    } else if same(metric, "battery") {
        copy("wmic path Win32_Battery get EstimatedChargeRemaining /value")
    } else if same(metric, "ip_address") {
        copy("for /f \"tokens=2 delims=:\" %a in ('ipconfig ^| findstr /i \"IPv4\"') do @echo %a")
    } else {
        String::new()
    }
}

/// The part of a batch that prints the marker of a metric and asks for it.
pub open spec fn step(metric: Seq<char>) -> Seq<char> {
    "echo ---METRIC:"@ + metric + " & "@ + command(metric)
}

fn build_step(metric: &str, cmd: &str) -> (r: String)
    requires
        cmd@ == command(metric@),
    ensures
        r@ == step(metric@),
{
    let mut out = concat3("echo ---METRIC:", metric, " & ");
    out.append(cmd);
    out
}

/// One command that asks for every known metric, each after its marker.
pub open spec fn batch(metrics: Seq<Seq<char>>) -> Seq<char> {
    join(steps(metrics, |m: Seq<char>| command(m), |m: Seq<char>| step(m)), " & "@)
}

/// Builds one command that asks for every known metric, each after its marker.
pub fn batch_command(metrics: &[String]) -> (r: String)
    ensures
        r@ == batch(texts(metrics@)),
{
    let ghost all = texts(metrics@);
    let ghost c = |m: Seq<char>| command(m);
    let ghost s = |m: Seq<char>| step(m);
    let mut parts: Vec<String> = Vec::new();
    let mut i: usize = 0;
    assert(texts(parts@) =~= steps(all.take(0), c, s));
    while i < metrics.len()
        invariant
            i <= metrics.len(),
            all == texts(metrics@),
            c == (|m: Seq<char>| command(m)),
            s == (|m: Seq<char>| step(m)),
            texts(parts@) == steps(all.take(i as int), c, s),
        decreases metrics.len() - i,
    {
        assert(all.take(i + 1).drop_last() =~= all.take(i as int));
        assert(all.take(i + 1).last() == metrics@[i as int]@);
        let cmd = command_for(metrics[i].as_str());
        if chars_of(cmd.as_str()).len() > 0 {
            parts.push(build_step(metrics[i].as_str(), cmd.as_str()));
        }
        i += 1;
    }
    assert(all.take(i as int) =~= all);
    join_all(parts.as_slice(), " & ")
}

/// The part of a batch that prints the marker of a path and measures it.
pub open spec fn path_step(path: Seq<char>, label: Seq<char>) -> Seq<char> {
    "echo ---PATH:"@ + label + " & dir /s /a \""@ + path + "\" 2>nul"@
}

fn build_path_step(path: &str, label: &str) -> (r: String)
    ensures
        r@ == path_step(path@, label@),
{
    let mut out = concat3("echo ---PATH:", label, " & dir /s /a \"");
    out.append(path);
    out.append("\" 2>nul");
    out
}

/// One command that measures every path, each after its marker.
pub open spec fn path_batch(paths: Seq<(String, String)>) -> Seq<char> {
    join(path_steps(paths, |p: Seq<char>, l: Seq<char>| path_step(p, l)), " & "@)
}

/// Builds one command that measures every path, each after its marker.
pub fn batch_path_command(paths: &[(String, String)]) -> (r: String)
    ensures
        r@ == path_batch(paths@),
{
    let ghost s = |p: Seq<char>, l: Seq<char>| path_step(p, l);
    let mut parts: Vec<String> = Vec::new();
    let mut i: usize = 0;
    while i < paths.len()
        invariant
            i <= paths.len(),
            s == (|p: Seq<char>, l: Seq<char>| path_step(p, l)),
            texts(parts@) == path_steps(paths@, s).take(i as int),
        decreases paths.len() - i,
    {
        parts.push(build_path_step(paths[i].0.as_str(), paths[i].1.as_str()));
        i += 1;
        assert(texts(parts@) =~= path_steps(paths@, s).take(i as int));
    }
    assert(path_steps(paths@, s).take(i as int) =~= path_steps(paths@, s));
    join_all(parts.as_slice(), " & ")
}

// ---------------------------------------------------------------------------
// Laws
// ---------------------------------------------------------------------------

/// A step prints the marker with the name of its metric, and then runs the command for it.
pub proof fn steps_announce_their_metric(metric: Seq<char>)
    ensures
        step(metric) == "echo "@ + ("---METRIC:"@ + metric) + " & "@ + command(metric),
{
    reveal_strlit("echo ---METRIC:");
    reveal_strlit("echo ");
    reveal_strlit("---METRIC:");
    assert("echo ---METRIC:"@ =~= "echo "@ + "---METRIC:"@);
    assert(step(metric) =~= "echo "@ + ("---METRIC:"@ + metric) + " & "@ + command(metric));
}

/// The marker in front of a path's size holds the label of the path, and the size is taken
/// of the path itself.
pub proof fn path_steps_announce_their_label(
    path: Seq<char>,
    label: Seq<char>,
) -> (rest: (Seq<char>, Seq<char>))
    ensures
        path_step(path, label) == "echo "@ + ("---PATH:"@ + label) + rest.0 + path + rest.1,
{
    reveal_strlit("echo ---PATH:");
    reveal_strlit("echo ");
    reveal_strlit("---PATH:");
    assert("echo ---PATH:"@ =~= "echo "@ + "---PATH:"@);
    let a = " & dir /s /a \""@;
    let b = "\" 2>nul"@;
    assert(path_step(path, label) =~= "echo "@ + ("---PATH:"@ + label) + a + path + b);
    (a, b)
}

} // verus!
