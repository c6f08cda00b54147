//! The sandbox's own test: what a confined process tried, and whether it was stopped.

use vstd::prelude::*;
use vstd::string::*;

use crate::text;

verus! {

/// Something that a confined process tried.
#[derive(Debug)]
pub struct Probe {
    pub name: String,
    /// It has to be denied for the test to pass.
    pub hard: bool,
    pub denied: bool,
    pub detail: String,
}

/// Whether content processes are confined by the system: only on Linux on x86-64, and only where
/// it is asked for.
pub fn sandbox_enabled(supported: bool, asked: bool) -> (r: bool)
    ensures
        r == (supported && asked),
{
    supported && asked
}

/// The files that a confined process tries to read: the user's key, and the passwords' file.
pub fn guarded_files(home: Option<&str>) -> (r: Vec<String>)
    ensures
        text::texts(r@) == seq![
            (match home {
                Some(h) => h@,
                None => "/root"@,
            }) + "/.ssh/id_rsa"@,
            "/etc/shadow"@,
        ],
{
    let mut key: String = match home {
        Some(h) => h.to_owned(),
        None => "/root".to_owned(),
    };
    key.append("/.ssh/id_rsa");
    let mut out: Vec<String> = Vec::new();
    out.push(key);
    out.push("/etc/shadow".to_owned());
    assert(text::texts(out@) =~= seq![key@, "/etc/shadow"@]);
    out
}

/// A probe as it was meant: its name, whether it has to be denied, and what came of it. An error
/// is a denial.
pub open spec fn is_probe(
    p: Probe,
    name: Seq<char>,
    hard: bool,
    subject: Seq<char>,
    leak: Seq<char>,
    error: Option<Seq<char>>,
) -> bool {
    &&& p.name@ == name
    &&& p.hard == hard
    &&& p.denied == error is Some
    &&& p.detail@ == match error {
        Some(e) => subject + ": "@ + e,
        None => leak,
    }
}

/// The text inside an optional error.
pub open spec fn error_text(e: Option<String>) -> Option<Seq<char>> {
    match e {
        Some(s) => Some(s@),
        None => None,
    }
}

fn detail_of(subject: &str, leak: &str, error: &Option<String>) -> (r: String)
    ensures
        r@ == match error_text(*error) {
            Some(e) => subject@ + ": "@ + e,
            None => leak@,
        },
{
    match error {
        Some(e) => {
            let mut out: String = subject.to_owned();
            out.append(": ");
            out.append(e.as_str());
            out
        },
        None => leak.to_owned(),
    }
}

/// A file that must not be read was tried.
pub fn file_probe(path: &str, error: Option<String>) -> (r: Probe)
    ensures
        is_probe(r, "file-read"@, true, path@, path@ + ": OPENED (leak!)"@, error_text(error)),
{
    let mut leak: String = path.to_owned();
    leak.append(": OPENED (leak!)");
    let detail: String = detail_of(path, leak.as_str(), &error);
    Probe { name: "file-read".to_owned(), hard: true, denied: error.is_some(), detail }
}

/// A connection was tried.
pub fn connect_probe(target: &str, error: Option<String>) -> (r: Probe)
    ensures
        is_probe(
            r,
            "tcp-connect"@,
            true,
            target@,
            target@ + ": CONNECTED (leak!)"@,
            error_text(error),
        ),
{
    let mut leak: String = target.to_owned();
    leak.append(": CONNECTED (leak!)");
    let detail: String = detail_of(target, leak.as_str(), &error);
    Probe { name: "tcp-connect".to_owned(), hard: true, denied: error.is_some(), detail }
}

/// A network socket was tried.
pub fn socket_probe(error: Option<String>) -> (r: Probe)
    ensures
        is_probe(
            r,
            "inet-socket"@,
            true,
            "UDP/AF_INET bind"@,
            "UDP/AF_INET socket: CREATED (leak! socket() not AF_UNIX-restricted)"@,
            error_text(error),
        ),
{
    let detail: String = detail_of(
        "UDP/AF_INET bind",
        "UDP/AF_INET socket: CREATED (leak! socket() not AF_UNIX-restricted)",
        &error,
    );
    Probe { name: "inet-socket".to_owned(), hard: true, denied: error.is_some(), detail }
}

/// Starting a program was tried. This one is for information: it is not meant to be denied.
pub fn exec_probe(denied: bool) -> (r: Probe)
    ensures
        r.name@ == "process-exec"@,
        !r.hard,
        r.denied == denied,
        r.detail@ == "/bin/true spawn (informational until seccomp enforce)"@,
{
    Probe {
        name: "process-exec".to_owned(),
        hard: false,
        denied,
        detail: "/bin/true spawn (informational until seccomp enforce)".to_owned(),
    }
}

/// A text with spaces behind it, up to a width.
pub open spec fn padded(s: Seq<char>, width: nat) -> Seq<char> {
    s + Seq::new(
        if s.len() < width {
            (width - s.len()) as nat
        } else {
            0
        },
        |i: int| ' ',
    )
}

fn pad(s: &str, width: usize) -> (r: String)
    ensures
        r@ == padded(s@, width as nat),
{
    let mut out: String = s.to_owned();
    let mut n: usize = s.unicode_len();
    let ghost k = n;
    while n < width
        invariant
            k == s@.len(),
            k <= n,
            n <= width || n == k,
            out@ == s@ + Seq::new((n - k) as nat, |i: int| ' '),
        decreases width - n,
    {
        let ghost before = out@;
        out.push(' ');
        assert(out@ =~= s@ + Seq::new((n + 1 - k) as nat, |i: int| ' '));
        n = n + 1;
    }
    assert(out@ =~= padded(s@, width as nat));
    out
}

/// The line of the report for a probe.
pub open spec fn probe_line(p: Probe) -> Seq<char> {
    "  "@ + (if p.hard {
        "[gate]"@
    } else {
        "[info]"@
    }) + " "@ + padded(p.name@, 13) + " -> "@ + (if p.denied {
        "DENIED"@
    } else {
        "ALLOWED"@
    }) + "   ("@ + p.detail@ + ")\n"@
}

/// The lines of the report.
pub open spec fn probe_lines(p: Seq<Probe>) -> Seq<char>
    decreases p.len(),
{
    if p.len() == 0 {
        Seq::empty()
    } else {
        probe_lines(p.drop_last()) + probe_line(p.last())
    }
}

/// The test is passed: everything that has to be denied was.
pub open spec fn is_confined(p: Seq<Probe>) -> bool {
    forall|i: int| 0 <= i < p.len() && (#[trigger] p[i]).hard ==> p[i].denied
}

/// The report of the test.
pub open spec fn report_text(outcome: Seq<char>, p: Seq<Probe>) -> Seq<char> {
    "\n=== navgator sandbox selftest ===\nsandbox outcome: "@ + outcome + "\n\n"@ + probe_lines(p)
        + "\nresult: "@ + (if is_confined(p) {
        "PASS (all hard gates denied)"@
    } else {
        "FAIL (a forbidden op was ALLOWED)"@
    }) + "\n"@
}

fn write_line(p: &Probe) -> (r: String)
    ensures
        r@ == probe_line(*p),
{
    let mut out: String = "  ".to_owned();
    out.append(
        if p.hard {
            "[gate]"
        } else {
            "[info]"
        },
    );
    out.append(" ");
    out.append(pad(p.name.as_str(), 13).as_str());
    out.append(" -> ");
    out.append(
        if p.denied {
            "DENIED"
        } else {
            "ALLOWED"
        },
    );
    out.append("   (");
    out.append(p.detail.as_str());
    out.append(")\n");
    out
}

/// What is reported where the system cannot confine a process.
pub open spec fn skip_text() -> Seq<char> {
    "navgator --sandbox-selftest: no Landlock+seccomp backend on this platform (Linux x86-64 only) — nothing to assert; skipping.\n"@
}

/// The report of the test, and the status that the process ends with: 0 exactly if everything that
/// has to be denied was. Where the system cannot confine a process there is nothing to test.
pub fn run_sandbox_selftest(supported: bool, outcome: &str, probes: &Vec<Probe>) -> (r: (
    String,
    i32,
))
    ensures
        r.0@ == if supported {
            report_text(outcome@, probes@)
        } else {
            skip_text()
        },
        r.1 == if !supported || is_confined(probes@) {
            0i32
        } else {
            1i32
        },
{
    if !supported {
        return (
            "navgator --sandbox-selftest: no Landlock+seccomp backend on this platform (Linux x86-64 only) — nothing to assert; skipping.\n".to_owned(),
            0,
        );
    }
    let mut lines: String = String::new();
    let mut confined: bool = true;
    let mut i: usize = 0;
    assert(lines@ =~= probe_lines(probes@.take(0)));
    while i < probes.len()
        invariant
            i <= probes@.len(),
            lines@ == probe_lines(probes@.take(i as int)),
            confined == forall|j: int|
                0 <= j < i && (#[trigger] probes@[j]).hard ==> probes@[j].denied,
        decreases probes@.len() - i,
    {
        assert(probes@.take(i + 1).drop_last() =~= probes@.take(i as int));
        lines.append(write_line(&probes[i]).as_str());
        if probes[i].hard && !probes[i].denied {
            confined = false;
            assert(probes@[i as int].hard);
        }
        i = i + 1;
    }
    assert(probes@.take(probes@.len() as int) =~= probes@);
    let mut out: String = "\n=== navgator sandbox selftest ===\nsandbox outcome: ".to_owned();
    out.append(outcome);
    out.append("\n\n");
    out.append(lines.as_str());
    out.append("\nresult: ");
    out.append(
        if confined {
            "PASS (all hard gates denied)"
        } else {
            "FAIL (a forbidden op was ALLOWED)"
        },
    );
    out.append("\n");
    let code: i32 = if confined {
        0
    } else {
        1
    };
    (out, code)
}

/// One leak fails the test, whatever else was denied.
pub proof fn one_leak_fails_the_test(p: Seq<Probe>, i: int)
    requires
        0 <= i < p.len(),
        p[i].hard,
        !p[i].denied,
    ensures
        !is_confined(p),
{
}

// ---------------------------------------------------------------------------
// Laws
// ---------------------------------------------------------------------------

/// The report has a line for each probe, in order. A line says whether the probe has to be denied, its
/// name, whether it was denied, and what came of it.
pub proof fn each_probe_has_its_line(p: Seq<Probe>, x: Probe)
    requires
        x.name@.len() == 13,
    ensures
        probe_lines(Seq::empty()).len() == 0,
        x.hard && x.denied ==> probe_lines(p.push(x)) == probe_lines(p) + ("  "@ + "[gate]"@ + " "@
            + x.name@ + " -> "@ + "DENIED"@ + "   ("@ + x.detail@ + ")\n"@),
        x.hard && !x.denied ==> probe_lines(p.push(x)) == probe_lines(p) + ("  "@ + "[gate]"@ + " "@
            + x.name@ + " -> "@ + "ALLOWED"@ + "   ("@ + x.detail@ + ")\n"@),
        !x.hard && x.denied ==> probe_lines(p.push(x)) == probe_lines(p) + ("  "@ + "[info]"@ + " "@
            + x.name@ + " -> "@ + "DENIED"@ + "   ("@ + x.detail@ + ")\n"@),
        !x.hard && !x.denied ==> probe_lines(p.push(x)) == probe_lines(p) + ("  "@ + "[info]"@ + " "@
            + x.name@ + " -> "@ + "ALLOWED"@ + "   ("@ + x.detail@ + ")\n"@),
{
    assert(p.push(x).drop_last() =~= p);
    assert(padded(x.name@, 13) =~= x.name@);
}

/// The test passes exactly if no probe that has to be denied went through; what is for information
/// alone changes nothing.
pub proof fn the_test_passes_if_nothing_leaked(p: Seq<Probe>, x: Probe, outcome: Seq<char>)
    ensures
        is_confined(Seq::empty()),
        is_confined(p.push(x)) <==> is_confined(p) && (!x.hard || x.denied),
{
    let q = p.push(x);
    if is_confined(q) {
        assert forall|i: int| 0 <= i < p.len() && (#[trigger] p[i]).hard implies p[i].denied by {
            assert(q[i] == p[i]);
        }
        assert(q[p.len() as int] == x);
    }
}

/// What went wrong for a probe is what makes it denied, and what is told of it.
pub proof fn an_error_is_a_denial(
    p: Probe,
    name: Seq<char>,
    hard: bool,
    subject: Seq<char>,
    leak: Seq<char>,
    e: Seq<char>,
)
    ensures
        is_probe(p, name, hard, subject, leak, Some(e)) ==> p.denied && p.detail@ == subject + ": "@ + e,
        is_probe(p, name, hard, subject, leak, None) ==> !p.denied && p.detail@ == leak,
        is_probe(p, name, hard, subject, leak, Some(e)) ==> p.name@ == name && p.hard == hard,
{
}

/// A name is filled up with spaces to the width of its column, and a longer one stays whole.
pub proof fn names_fill_their_column(s: Seq<char>, width: nat, i: int)
    ensures
        s.is_prefix_of(padded(s, width)),
        s.len() >= width ==> padded(s, width) == s,
        s.len() < width ==> padded(s, width).len() == width,
        s.len() <= i < padded(s, width).len() ==> padded(s, width)[i] == ' ',
{
    if s.len() >= width {
        assert(padded(s, width) =~= s);
    }
}

} // verus!
