//! Probe commands for PowerShell.

use vstd::prelude::*;

use crate::metrics::probes::{path_steps, steps};
use crate::scan::{join, join_all};
use crate::text::{chars_of, concat3, copy, same, texts, texts_push};

verus! {

broadcast use texts_push;

/// The command that asks for a metric; empty for an unknown one.
pub open spec fn command(metric: Seq<char>) -> Seq<char> {
    if metric == "online"@ {
        "echo ok"@
    } else if metric == "system_info"@ {
        "Get-ComputerInfo | Select-Object OsName, CsName, OsVersion | ConvertTo-Json"@
    } else if metric == "cpu_arch"@ {
        "$env:PROCESSOR_ARCHITECTURE"@
    } else if metric == "memory"@ {
        "Get-CimInstance Win32_OperatingSystem | Select-Object TotalVisibleMemorySize, FreePhysicalMemory | ConvertTo-Json"@
    } else if metric == "swap"@ {
        "Get-CimInstance Win32_PageFileUsage | Select-Object AllocatedBaseSize, CurrentUsage | ConvertTo-Json"@
    } else if metric == "disk"@ {
        "Get-PSDrive -PSProvider FileSystem | Select-Object Name, Used, Free | ConvertTo-Json"@
    } else if metric == "cpu_load"@ {
        "(Get-Counter '\\Processor(_Total)\\% Processor Time').CounterSamples[0].CookedValue"@
    } else if metric == "network"@ {
        "Get-NetIPAddress | Select-Object InterfaceAlias, IPAddress | ConvertTo-Json"@
    } else if metric == "battery"@ {
        "Get-WmiObject Win32_Battery | Select-Object EstimatedChargeRemaining, BatteryStatus | ConvertTo-Json"@
    } else if metric == "ip_address"@ {
        "(Get-NetIPAddress -AddressFamily IPv4 | Where-Object {$_.IPAddress -ne '127.0.0.1'} | Select-Object -ExpandProperty IPAddress) -join ' '"@
    } else {
        Seq::empty()
    }
}

/// The command that asks for a metric; empty for an unknown one.
pub fn command_for(metric: &str) -> (r: String)
    ensures
        r@ == command(metric@),
{
    if same(metric, "online") {
        copy("echo ok")
    } else if same(metric, "system_info") {
        copy("Get-ComputerInfo | Select-Object OsName, CsName, OsVersion | ConvertTo-Json")
    } else if same(metric, "cpu_arch") {
        copy("$env:PROCESSOR_ARCHITECTURE")
    } else if same(metric, "memory") {
        copy("Get-CimInstance Win32_OperatingSystem | Select-Object TotalVisibleMemorySize, FreePhysicalMemory | ConvertTo-Json")
    } else if same(metric, "swap") {
        copy("Get-CimInstance Win32_PageFileUsage | Select-Object AllocatedBaseSize, CurrentUsage | ConvertTo-Json")
    } else if same(metric, "disk") {
        copy("Get-PSDrive -PSProvider FileSystem | Select-Object Name, Used, Free | ConvertTo-Json")
    } else if same(metric, "cpu_load") {
        copy("(Get-Counter '\\Processor(_Total)\\% Processor Time').CounterSamples[0].CookedValue")
    } else if same(metric, "network") {
        copy("Get-NetIPAddress | Select-Object InterfaceAlias, IPAddress | ConvertTo-Json")
    } else if same(metric, "battery") {
        copy("Get-WmiObject Win32_Battery | Select-Object EstimatedChargeRemaining, BatteryStatus | ConvertTo-Json")
    } else if same(metric, "ip_address") {
        copy("(Get-NetIPAddress -AddressFamily IPv4 | Where-Object {$_.IPAddress -ne '127.0.0.1'} | Select-Object -ExpandProperty IPAddress) -join ' '")
    } else {
        String::new()
    }
}

/// The part of a batch that prints the marker of a metric and asks for it.
pub open spec fn step(metric: Seq<char>) -> Seq<char> {
    "Write-Output '---METRIC:"@ + metric + "'; "@ + command(metric)
}

fn build_step(metric: &str, cmd: &str) -> (r: String)
    requires
        cmd@ == command(metric@),
    ensures
        r@ == step(metric@),
{
    let mut out = concat3("Write-Output '---METRIC:", metric, "'; ");
    out.append(cmd);
    out
}

/// One command that asks for every known metric, each after its marker.
pub open spec fn batch(metrics: Seq<Seq<char>>) -> Seq<char> {
    join(steps(metrics, |m: Seq<char>| command(m), |m: Seq<char>| step(m)), "; "@)
}

/// Builds one command that asks for every known metric, each after its marker.
pub fn batch_command(metrics: &[String]) -> (r: String)
    ensures
        r@ == batch(texts(metrics@)),
{
    let ghost all = texts(metrics@);
    let ghost c = |m: Seq<char>| command(m);
    let ghost s = |m: Seq<char>| step(m);
    let mut parts: Vec<String> = Vec::new();
    let mut i: usize = 0;
    assert(texts(parts@) =~= steps(all.take(0), c, s));
    while i < metrics.len()
        invariant
            i <= metrics.len(),
            all == texts(metrics@),
            c == (|m: Seq<char>| command(m)),
            s == (|m: Seq<char>| step(m)),
            texts(parts@) == steps(all.take(i as int), c, s),
        decreases metrics.len() - i,
    {
        assert(all.take(i + 1).drop_last() =~= all.take(i as int));
        assert(all.take(i + 1).last() == metrics@[i as int]@);
        let cmd = command_for(metrics[i].as_str());
        if chars_of(cmd.as_str()).len() > 0 {
            parts.push(build_step(metrics[i].as_str(), cmd.as_str()));
        }
        i += 1;
    }
    assert(all.take(i as int) =~= all);
    join_all(parts.as_slice(), "; ")
}

/// The part of a batch that prints the marker of a path and measures it.
pub open spec fn path_step(path: Seq<char>, label: Seq<char>) -> Seq<char> {
    "Write-Output '---PATH:"@ + label + "'; if (Test-Path '"@ + path
        + "') { (Get-ChildItem -Recurse -File '"@ + path
        + "' | Measure-Object -Property Length -Sum).Sum } else { 'MISSING' }"@
}

fn build_path_step(path: &str, label: &str) -> (r: String)
    ensures
        r@ == path_step(path@, label@),
{
    let mut out = concat3("Write-Output '---PATH:", label, "'; if (Test-Path '");
    out.append(path);
    out.append("') { (Get-ChildItem -Recurse -File '");
    out.append(path);
    out.append("' | Measure-Object -Property Length -Sum).Sum } else { 'MISSING' }");
    out
}

/// One command that measures every path, each after its marker.
pub open spec fn path_batch(paths: Seq<(String, String)>) -> Seq<char> {
    join(path_steps(paths, |p: Seq<char>, l: Seq<char>| path_step(p, l)), "; "@)
}

/// Builds one command that measures every path, each after its marker.
pub fn batch_path_command(paths: &[(String, String)]) -> (r: String)
    ensures
        r@ == path_batch(paths@),
{
    let ghost s = |p: Seq<char>, l: Seq<char>| path_step(p, l);
    let mut parts: Vec<String> = Vec::new();
    let mut i: usize = 0;
    while i < paths.len()
        invariant
            i <= paths.len(),
            s == (|p: Seq<char>, l: Seq<char>| path_step(p, l)),
            texts(parts@) == path_steps(paths@, s).take(i as int),
        decreases paths.len() - i,
    {
        parts.push(build_path_step(paths[i].0.as_str(), paths[i].1.as_str()));
        i += 1;
        assert(texts(parts@) =~= path_steps(paths@, s).take(i as int));
    }
    assert(path_steps(paths@, s).take(i as int) =~= path_steps(paths@, s));
    join_all(parts.as_slice(), "; ")
}

// ---------------------------------------------------------------------------
// Laws
// ---------------------------------------------------------------------------

/// A step prints the marker with the name of its metric, and then runs the command for it.
pub proof fn steps_announce_their_metric(metric: Seq<char>)
    ensures
        step(metric) == "Write-Output '"@ + ("---METRIC:"@ + metric) + "'; "@ + command(metric),
{
    reveal_strlit("Write-Output '---METRIC:");
    reveal_strlit("Write-Output '");
    reveal_strlit("---METRIC:");
    assert("Write-Output '---METRIC:"@ =~= "Write-Output '"@ + "---METRIC:"@);
    assert(step(metric) =~= "Write-Output '"@ + ("---METRIC:"@ + metric) + "'; "@
        + command(metric));
}

/// The marker in front of a path's size holds the label of the path, and the size is taken
/// of the path itself.
pub proof fn path_steps_announce_their_label(
    path: Seq<char>,
    label: Seq<char>,
) -> (rest: (Seq<char>, Seq<char>))
    ensures
        path_step(path, label) == "Write-Output '"@ + ("---PATH:"@ + label) + rest.0 + path
            + rest.1,
{
    reveal_strlit("Write-Output '---PATH:");
    reveal_strlit("Write-Output '");
    reveal_strlit("---PATH:");
    assert("Write-Output '---PATH:"@ =~= "Write-Output '"@ + "---PATH:"@);
    let a = "'; if (Test-Path '"@;
    let b = "') { (Get-ChildItem -Recurse -File '"@ + path
        + "' | Measure-Object -Property Length -Sum).Sum } else { 'MISSING' }"@;
    assert(path_step(path, label) =~= "Write-Output '"@ + ("---PATH:"@ + label) + a + path + b);
    (a, b)
}

} // verus!
