//! The argument lists of the `ssh` commands that the daemon runs.
use vstd::prelude::*;

use crate::text::{decimal, push_decimal, push_str};

verus! {

/// The texts of a list of strings.
pub open spec fn texts(v: Seq<String>) -> Seq<Seq<char>> {
    v.map_values(|s: String| s@)
}

/// The text of an optional string.
pub open spec fn opt_text(o: Option<&str>) -> Option<Seq<char>> {
    match o {
        Some(s) => Some(s@),
        None => None,
    }
}

/// Options that reuse the master connection's ControlPath socket; given on
/// Unix only, where OpenSSH supports it.
pub open spec fn control_args(control_path: Option<Seq<char>>, unix: bool) -> Seq<Seq<char>> {
    if unix && control_path is Some {
        seq![
            "-o"@,
            "ControlPath="@ + control_path->0,
            "-o"@,
            "ControlMaster=no"@,
        ]
    } else {
        Seq::empty()
    }
}

/// Options common to every `ssh` run: never prompt, accept new host keys,
/// connect to `port`, and reuse the master connection.
pub open spec fn base_args(port: u16, control_path: Option<Seq<char>>, unix: bool) -> Seq<
    Seq<char>,
> {
    seq![
        "-o"@,
        "BatchMode=yes"@,
        "-o"@,
        "StrictHostKeyChecking=accept-new"@,
        "-p"@,
        decimal(port as nat),
    ] + control_args(control_path, unix)
}

/// Arguments of `ssh` to run `command` on `host`.
pub open spec fn remote_command_argv(
    host: Seq<char>,
    port: u16,
    control_path: Option<Seq<char>>,
    extra: Seq<Seq<char>>,
    command: Seq<char>,
    unix: bool,
) -> Seq<Seq<char>> {
    base_args(port, control_path, unix) + extra + seq![host, command]
}

/// The `-L` specification that forwards `local_port` to `remote_port`.
pub open spec fn tunnel_spec(local_port: u16, remote_port: u16) -> Seq<char> {
    decimal(local_port as nat) + ":localhost:"@ + decimal(remote_port as nat)
}

/// Arguments of `ssh` to forward local `local_port` to `remote_port` on `host`,
/// without running a remote command.
pub open spec fn forward_argv(
    host: Seq<char>,
    port: u16,
    control_path: Option<Seq<char>>,
    extra: Seq<Seq<char>>,
    remote_port: u16,
    local_port: u16,
    unix: bool,
) -> Seq<Seq<char>> {
    seq!["-N"@] + base_args(port, control_path, unix) + extra + seq![
        "-L"@,
        tunnel_spec(local_port, remote_port),
        host,
    ]
}

/// Layout of the forward's command line: `-N`, then the options that never
/// prompt, accept new host keys and pick the port, then (on Unix, with a
/// ControlPath) the options that reuse the master connection, then the
/// user's extra arguments verbatim and in their order, then `-L` with
/// `local:localhost:remote`, and the host last.
pub proof fn law_forward_args_layout(
    host: Seq<char>,
    port: u16,
    control_path: Option<Seq<char>>,
    extra: Seq<Seq<char>>,
    remote_port: u16,
    local_port: u16,
    unix: bool,
)
    ensures
        ({
            let a = forward_argv(host, port, control_path, extra, remote_port, local_port, unix);
            let c: int = if unix && control_path is Some { 4 } else { 0 };
            let k = 7 + c;
            &&& a.len() == k + extra.len() + 3
            &&& a[0] == "-N"@
            &&& a.subrange(1, 7) == seq![
                "-o"@,
                "BatchMode=yes"@,
                "-o"@,
                "StrictHostKeyChecking=accept-new"@,
                "-p"@,
                decimal(port as nat),
            ]
            &&& (unix && control_path is Some ==> a.subrange(7, 11) == seq![
                "-o"@,
                "ControlPath="@ + control_path->0,
                "-o"@,
                "ControlMaster=no"@,
            ])
            &&& a.subrange(k, k + extra.len()) == extra
            &&& a[k + extra.len()] == "-L"@
            &&& a[k + extra.len() + 1] == decimal(local_port as nat) + ":localhost:"@ + decimal(
                remote_port as nat,
            )
            &&& a[k + extra.len() + 2] == host
        }),
{
    let a = forward_argv(host, port, control_path, extra, remote_port, local_port, unix);
    let c: int = if unix && control_path is Some { 4 } else { 0 };
    let k = 7 + c;
    assert(a.subrange(1, 7) =~= seq![
        "-o"@,
        "BatchMode=yes"@,
        "-o"@,
        "StrictHostKeyChecking=accept-new"@,
        "-p"@,
        decimal(port as nat),
    ]);
    if unix && control_path is Some {
        assert(a.subrange(7, 11) =~= seq![
            "-o"@,
            "ControlPath="@ + control_path->0,
            "-o"@,
            "ControlMaster=no"@,
        ]);
    }
    assert(a.subrange(k, k + extra.len()) =~= extra);
}

/// Layout of a remote command's command line: the options that never
/// prompt, accept new host keys and pick the port, then (on Unix, with a
/// ControlPath) the options that reuse the master connection, then the
/// user's extra arguments verbatim and in their order, then the host and
/// the command.
pub proof fn law_remote_command_args_layout(
    host: Seq<char>,
    port: u16,
    control_path: Option<Seq<char>>,
    extra: Seq<Seq<char>>,
    command: Seq<char>,
    unix: bool,
)
    ensures
        ({
            let a = remote_command_argv(host, port, control_path, extra, command, unix);
            let c: int = if unix && control_path is Some { 4 } else { 0 };
            let k = 6 + c;
            &&& a.len() == k + extra.len() + 2
            &&& a.subrange(0, 6) == seq![
                "-o"@,
                "BatchMode=yes"@,
                "-o"@,
                "StrictHostKeyChecking=accept-new"@,
                "-p"@,
                decimal(port as nat),
            ]
            &&& (unix && control_path is Some ==> a.subrange(6, 10) == seq![
                "-o"@,
                "ControlPath="@ + control_path->0,
                "-o"@,
                "ControlMaster=no"@,
            ])
            &&& a.subrange(k, k + extra.len()) == extra
            &&& a[k + extra.len()] == host
            &&& a[k + extra.len() + 1] == command
        }),
{
    let a = remote_command_argv(host, port, control_path, extra, command, unix);
    let c: int = if unix && control_path is Some { 4 } else { 0 };
    let k = 6 + c;
    assert(a.subrange(0, 6) =~= seq![
        "-o"@,
        "BatchMode=yes"@,
        "-o"@,
        "StrictHostKeyChecking=accept-new"@,
        "-p"@,
        decimal(port as nat),
    ]);
    if unix && control_path is Some {
        assert(a.subrange(6, 10) =~= seq![
            "-o"@,
            "ControlPath="@ + control_path->0,
            "-o"@,
            "ControlMaster=no"@,
        ]);
    }
    assert(a.subrange(k, k + extra.len()) =~= extra);
}

fn push_arg(args: &mut Vec<String>, t: &str)
    ensures
        texts(final(args)@) == texts(old(args)@).push(t@),
{
    let mut s = String::new();
    push_str(&mut s, t);
    let ghost before = args@;
    args.push(s);
    assert(texts(args@) =~= texts(before).push(t@));
}

fn push_base_args(args: &mut Vec<String>, port: u16, control_path: Option<&str>, unix: bool)
    ensures
        texts(final(args)@) == texts(old(args)@) + base_args(port, opt_text(control_path), unix),
{
    push_arg(args, "-o");
    push_arg(args, "BatchMode=yes");
    push_arg(args, "-o");
    push_arg(args, "StrictHostKeyChecking=accept-new");
    push_arg(args, "-p");
    let mut p = String::new();
    push_decimal(&mut p, port as u64);
    let ghost mid = args@;
    args.push(p);
    assert(texts(args@) =~= texts(mid).push(decimal(port as nat)));
    let ghost after_port = args@;
    if unix {
        match control_path {
            Some(cp) => {
                push_arg(args, "-o");
                let mut c = String::new();
                push_str(&mut c, "ControlPath=");
                push_str(&mut c, cp);
                let ghost m2 = args@;
                args.push(c);
                assert(texts(args@) =~= texts(m2).push("ControlPath="@ + cp@));
                push_arg(args, "-o");
                push_arg(args, "ControlMaster=no");
            },
            None => {},
        }
    }
    assert(texts(args@) =~= texts(old(args)@) + base_args(port, opt_text(control_path), unix));
}

fn push_all(args: &mut Vec<String>, extra: &[String])
    ensures
        texts(final(args)@) == texts(old(args)@) + texts(extra@),
{
    let mut i: usize = 0;
    while i < extra.len()
        invariant
            i <= extra@.len(),
            texts(args@) == texts(old(args)@) + texts(extra@.take(i as int)),
        decreases extra@.len() - i,
    {
        let ghost before = args@;
        args.push(extra[i].clone());
        assert(texts(extra@.take(i + 1)) =~= texts(extra@.take(i as int)).push(extra@[i as int]@));
        assert(texts(args@) =~= texts(before).push(extra@[i as int]@));
        i = i + 1;
    }
    assert(extra@.take(i as int) =~= extra@);
}

/// Arguments of `ssh` to run `command` on `host` (see [`remote_command_argv`]).
pub fn remote_command_args(
    host: &str,
    ssh_port: u16,
    control_path: Option<&str>,
    extra_args: &[String],
    command: &str,
    unix: bool,
) -> (args: Vec<String>)
    ensures
        texts(args@) == remote_command_argv(
            host@,
            ssh_port,
            opt_text(control_path),
            texts(extra_args@),
            command@,
            unix,
        ),
{
    let mut args: Vec<String> = Vec::new();
    push_base_args(&mut args, ssh_port, control_path, unix);
    push_all(&mut args, extra_args);
    push_arg(&mut args, host);
    push_arg(&mut args, command);
    assert(texts(args@) =~= remote_command_argv(
        host@,
        ssh_port,
        opt_text(control_path),
        texts(extra_args@),
        command@,
        unix,
    ));
    args
}

/// Arguments of `ssh -L` to forward `local_port` to `remote_port` on `host`
/// (see [`forward_argv`]).
pub fn forward_command_args(
    host: &str,
    ssh_port: u16,
    control_path: Option<&str>,
    extra_args: &[String],
    remote_port: u16,
    local_port: u16,
    unix: bool,
) -> (args: Vec<String>)
    ensures
        texts(args@) == forward_argv(
            host@,
            ssh_port,
            opt_text(control_path),
            texts(extra_args@),
            remote_port,
            local_port,
            unix,
        ),
{
    let mut args: Vec<String> = Vec::new();
    push_arg(&mut args, "-N");
    push_base_args(&mut args, ssh_port, control_path, unix);
    push_all(&mut args, extra_args);
    push_arg(&mut args, "-L");
    let mut tunnel = String::new();
    push_decimal(&mut tunnel, local_port as u64);
    push_str(&mut tunnel, ":localhost:");
    push_decimal(&mut tunnel, remote_port as u64);
    let ghost before = args@;
    args.push(tunnel);
    assert(texts(args@) =~= texts(before).push(tunnel_spec(local_port, remote_port)));
    push_arg(&mut args, host);
    assert(texts(args@) =~= forward_argv(
        host@,
        ssh_port,
        opt_text(control_path),
        texts(extra_args@),
        remote_port,
        local_port,
        unix,
    ));
    args
}

} // verus!
