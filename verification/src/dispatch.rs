//! Construction of the capture tool's invocation: the per-process output
//! file name `<name>-<pid>.txt`, the output path under the chosen directory,
//! and the argument vector `-mayDie -file <path> <pid>`.
//!
//! The capture tool itself is an external collaborator: launching it, and
//! everything it writes, is outside this crate. What is verified here is
//! that every dispatched process gets the exact file name and arguments the
//! tool is meant to see.
use vstd::prelude::*;
use vstd::string::StringExecFns;

verus! {

/// The decimal digit character for `d` (which must be below ten).
pub open spec fn dec_digit(d: nat) -> char {
    if d == 0 {
        '0'
    } else if d == 1 {
        '1'
    } else if d == 2 {
        '2'
    } else if d == 3 {
        '3'
    } else if d == 4 {
        '4'
    } else if d == 5 {
        '5'
    } else if d == 6 {
        '6'
    } else if d == 7 {
        '7'
    } else if d == 8 {
        '8'
    } else {
        '9'
    }
}

/// The decimal rendering of `n`, most significant digit first, with no
/// leading zeros (a lone zero for 0).
pub open spec fn dec_str(n: nat) -> Seq<char>
    decreases n,
{
    if n < 10 {
        seq![dec_digit(n)]
    } else {
        dec_str(n / 10).push(dec_digit(n % 10))
    }
}

/// The output file name for one sampled process: `<name>-<pid>.txt`.
pub open spec fn file_name_spec(name: Seq<char>, pid: u32) -> Seq<char> {
    name + seq!['-'] + dec_str(pid as nat) + seq!['.', 't', 'x', 't']
}

/// The output path: the directory, a path separator, then the file name.
pub open spec fn output_path_spec(dir: Seq<char>, name: Seq<char>, pid: u32) -> Seq<char> {
    dir + seq!['/'] + file_name_spec(name, pid)
}

fn push_digit(d: u32, out: &mut String)
    requires
        d < 10,
    ensures
        final(out)@ == old(out)@ + seq![dec_digit(d as nat)],
{
    proof {
        reveal_strlit("0");
        reveal_strlit("1");
        reveal_strlit("2");
        reveal_strlit("3");
        reveal_strlit("4");
        reveal_strlit("5");
        reveal_strlit("6");
        reveal_strlit("7");
        reveal_strlit("8");
        reveal_strlit("9");
    }
    match d {
        0 => out.append("0"),
        1 => out.append("1"),
        2 => out.append("2"),
        3 => out.append("3"),
        4 => out.append("4"),
        5 => out.append("5"),
        6 => out.append("6"),
        7 => out.append("7"),
        8 => out.append("8"),
        _ => out.append("9"),
    }
}

fn push_dec(n: u32, out: &mut String)
    ensures
        final(out)@ == old(out)@ + dec_str(n as nat),
    decreases n,
{
    if n >= 10 {
        push_dec(n / 10, out);
    }
    push_digit(n % 10, out);
}

/// The decimal rendering of a process identifier, as the capture tool is
/// handed it on its command line.
pub fn pid_string(pid: u32) -> (r: String)
    ensures
        r@ == dec_str(pid as nat),
{
    let mut out = String::new();
    push_dec(pid, &mut out);
    out
}

/// Build the output file name `<name>-<pid>.txt` for one sampled process.
pub fn file_name(name: &str, pid: u32) -> (r: String)
    ensures
        r@ == file_name_spec(name@, pid),
{
    proof {
        reveal_strlit("-");
        reveal_strlit(".txt");
    }
    let mut out = String::from_str(name);
    out.append("-");
    push_dec(pid, &mut out);
    out.append(".txt");
    out
}

/// Build the full output path `<dir>/<name>-<pid>.txt`.
pub fn output_path(dir: &str, name: &str, pid: u32) -> (r: String)
    ensures
        r@ == output_path_spec(dir@, name@, pid),
{
    proof {
        reveal_strlit("/");
    }
    let mut out = String::from_str(dir);
    out.append("/");
    let rest = file_name(name, pid);
    out.append(rest.as_str());
    out
}

/// The argument vector the capture tool is invoked with: `-mayDie` (tolerate
/// the target dying mid-capture), `-file <path>`, then the target's
/// identifier in decimal.
pub fn capture_args(dir: &str, name: &str, pid: u32) -> (r: Vec<String>)
    ensures
        r@.len() == 4,
        r@[0]@ == "-mayDie"@,
        r@[1]@ == "-file"@,
        r@[2]@ == output_path_spec(dir@, name@, pid),
        r@[3]@ == dec_str(pid as nat),
{
    let mut out: Vec<String> = Vec::new();
    out.push(String::from_str("-mayDie"));
    out.push(String::from_str("-file"));
    out.push(output_path(dir, name, pid));
    out.push(pid_string(pid));
    out
}

} // verus!
