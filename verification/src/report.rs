//! The terminal colours and the text of every message the tool prints.
use vstd::prelude::*;

use crate::server::Server;
use crate::text::same_text;

verus! {

/// Colour that opens root (`sudo`) output and the emphasised help words.
pub const ROOT_COLOR_PREFIX: &'static str = "\x1b[33m";

/// Colour that opens ordinary output.
pub const MAIN_COLOR_PREFIX: &'static str = "\x1b[32m";

/// Sequence that resets the colour.
pub const MAIN_COLOR_SUFFIX: &'static str = "\x1b[0m";

/// Whether the command line `args` turns colours off, with `-C` or
/// `--nocolor`.
pub open spec fn wants_no_color(args: Seq<String>) -> bool {
    exists|i: int| 0 <= i < args.len() && (args[i]@ == "-C"@ || args[i]@ == "--nocolor"@)
}

/// Colours are off exactly when some argument is `-C` or `--nocolor`: never
/// for no arguments, and one more argument turns them off exactly when it is
/// one of the two flags or they were off already.
pub proof fn lemma_color_flags(args: Seq<String>, arg: String)
    ensures
        !wants_no_color(Seq::<String>::empty()),
        wants_no_color(args.push(arg)) <==> (wants_no_color(args) || arg@ == "-C"@ || arg@
            == "--nocolor"@),
{
    let longer = args.push(arg);
    if wants_no_color(args) {
        let i = choose|i: int|
            0 <= i < args.len() && (args[i]@ == "-C"@ || args[i]@ == "--nocolor"@);
        assert(longer[i] == args[i]);
    }
    if arg@ == "-C"@ || arg@ == "--nocolor"@ {
        assert(longer[args.len() as int] == arg);
    }
    if wants_no_color(longer) {
        let i = choose|i: int|
            0 <= i < longer.len() && (longer[i]@ == "-C"@ || longer[i]@ == "--nocolor"@);
        if i < args.len() {
            assert(longer[i] == args[i]);
        }
    }
}

/// The three colour sequences for the command line `args`: root prefix, main
/// prefix and suffix, or three empty texts when colours are turned off.
pub fn get_colors(args: Vec<String>) -> (colors: Vec<String>)
    ensures
        colors@.len() == 3,
        wants_no_color(args@) ==> colors@[0]@ == Seq::<char>::empty() && colors@[1]@
            == Seq::<char>::empty() && colors@[2]@ == Seq::<char>::empty(),
        !wants_no_color(args@) ==> colors@[0]@ == ROOT_COLOR_PREFIX@ && colors@[1]@
            == MAIN_COLOR_PREFIX@ && colors@[2]@ == MAIN_COLOR_SUFFIX@,
{
    let mut no_color: bool = false;
    let n: usize = args.len();
    let mut i: usize = 0;
    while i < n
        invariant
            0 <= i <= n,
            n == args@.len(),
            no_color <==> exists|j: int|
                0 <= j < i && (args@[j]@ == "-C"@ || args@[j]@ == "--nocolor"@),
        decreases n - i,
    {
        let a: &str = args[i].as_str();
        if same_text(a, "-C") || same_text(a, "--nocolor") {
            no_color = true;
        }
        i = i + 1;
    }
    let mut colors: Vec<String> = Vec::new();
    if no_color {
        colors.push(String::new());
        colors.push(String::new());
        colors.push(String::new());
    } else {
        colors.push(String::from_str(ROOT_COLOR_PREFIX));
        colors.push(String::from_str(MAIN_COLOR_PREFIX));
        colors.push(String::from_str(MAIN_COLOR_SUFFIX));
    }
    colors
}

/// The report printed after a command ran on a server: a blank line, a
/// heading that names the server and the command, a rule, then the output.
pub open spec fn report_text(
    prefix: Seq<char>,
    suffix: Seq<char>,
    server_name: Seq<char>,
    command: Seq<char>,
    buffer: Seq<char>,
) -> Seq<char> {
    "\n"@ + prefix + " Label: "@ + suffix + " "@ + server_name + " -> "@ + prefix + " Command: "@
        + suffix + " "@ + command + "\n"@ + prefix + "-------------------------"@ + suffix
        + "\n"@ + buffer + "\n"@
}

/// A report is one fixed template whatever goes into it: a newline, then the
/// prefix, suffix, server name, prefix, suffix and command, a rule in the
/// prefix and suffix, and the whole command output followed by a newline,
/// each inserted verbatim between texts that depend on none of them.
pub proof fn lemma_report_is_a_template()
    ensures
        exists|g: Seq<Seq<char>>|
            g.len() == 8 && forall|
                p: Seq<char>,
                s: Seq<char>,
                n: Seq<char>,
                c: Seq<char>,
                b: Seq<char>,
            |
                #[trigger] report_text(p, s, n, c, b) == "\n"@ + p + g[0] + s + g[1] + n + g[2] + p
                    + g[3] + s + g[4] + c + g[5] + p + g[6] + s + g[7] + b + "\n"@,
{
    let g: Seq<Seq<char>> = seq![
        " Label: "@,
        " "@,
        " -> "@,
        " Command: "@,
        " "@,
        "\n"@,
        "-------------------------"@,
        "\n"@,
    ];
    assert forall|p: Seq<char>, s: Seq<char>, n: Seq<char>, c: Seq<char>, b: Seq<char>|
        #[trigger] report_text(p, s, n, c, b) == "\n"@ + p + g[0] + s + g[1] + n + g[2] + p + g[3]
            + s + g[4] + c + g[5] + p + g[6] + s + g[7] + b + "\n"@ by {}
    assert(g.len() == 8);
}

/// A report ends with the whole command output and a newline: it is the
/// report of an empty output with the output inserted before that newline.
pub proof fn lemma_report_ends_with_output(
    p: Seq<char>,
    s: Seq<char>,
    n: Seq<char>,
    c: Seq<char>,
    b: Seq<char>,
)
    ensures
        report_text(p, s, n, c, b).len() == report_text(p, s, n, c, Seq::empty()).len() + b.len(),
        report_text(p, s, n, c, b).len() > b.len(),
        report_text(p, s, n, c, b) == report_text(p, s, n, c, Seq::empty()).drop_last() + b
            + "\n"@,
        report_text(p, s, n, c, b).skip(report_text(p, s, n, c, b).len() - b.len() - 1) == b
            + "\n"@,
{
    let head = "\n"@ + p + " Label: "@ + s + " "@ + n + " -> "@ + p + " Command: "@ + s + " "@
        + c + "\n"@ + p + "-------------------------"@ + s + "\n"@;
    let e = Seq::<char>::empty();
    reveal_strlit("\n");
    assert("\n"@.len() == 1);
    assert(report_text(p, s, n, c, e) =~= head + "\n"@);
    assert((head + "\n"@).drop_last() =~= head);
    assert(report_text(p, s, n, c, b) =~= head + b + "\n"@);
    assert((head + b + "\n"@).skip(head.len() as int) =~= b + "\n"@);
}

/// The report text in the colours `prefix` and `suffix`.
fn report(prefix: &str, suffix: &str, server_name: &str, command: &str, buffer: &str) -> (r:
    String)
    ensures
        r@ == report_text(prefix@, suffix@, server_name@, command@, buffer@),
{
    let mut r = String::from_str("\n");
    r.append(prefix);
    r.append(" Label: ");
    r.append(suffix);
    r.append(" ");
    r.append(server_name);
    r.append(" -> ");
    r.append(prefix);
    r.append(" Command: ");
    r.append(suffix);
    r.append(" ");
    r.append(command);
    r.append("\n");
    r.append(prefix);
    r.append("-------------------------");
    r.append(suffix);
    r.append("\n");
    r.append(buffer);
    r.append("\n");
    r
}

/// The report of a command run as root on `server_name`, in the root colour.
pub fn root_result_text(colors: &Vec<String>, server_name: &str, command: &str, buffer: &str) -> (r:
    String)
    requires
        colors@.len() >= 3,
    ensures
        r@.len() > buffer@.len(),
        r@.skip(r@.len() - buffer@.len() - 1) == buffer@ + "\n"@,
        r@ == report_text(colors@[0]@, colors@[2]@, server_name@, command@, buffer@),
{
    let r = report(colors[0].as_str(), colors[2].as_str(), server_name, command, buffer);
    proof {
        lemma_report_ends_with_output(colors@[0]@, colors@[2]@, server_name@, command@, buffer@);
    }
    r
}

/// The report of a command run on `server_name`, in the main colour.
pub fn result_text(colors: &Vec<String>, server_name: &str, command: &str, buffer: &str) -> (r:
    String)
    requires
        colors@.len() >= 3,
    ensures
        r@.len() > buffer@.len(),
        r@.skip(r@.len() - buffer@.len() - 1) == buffer@ + "\n"@,
        r@ == report_text(colors@[1]@, colors@[2]@, server_name@, command@, buffer@),
{
    let r = report(colors[1].as_str(), colors[2].as_str(), server_name, command, buffer);
    proof {
        lemma_report_ends_with_output(colors@[1]@, colors@[2]@, server_name@, command@, buffer@);
    }
    r
}

/// The details of `server`, each field title in the colours `prefix` and
/// `suffix`, closed by a rule.
pub open spec fn details_text(prefix: Seq<char>, suffix: Seq<char>, server: Server) -> Seq<char> {
    prefix + "Name:"@ + suffix + " "@ + server.name@ + "\n"@ + prefix + "User:"@ + suffix + " "@
        + server.user@ + "\n"@ + prefix + "Address:"@ + suffix + " "@ + server.address@ + "\n"@
        + prefix + "SSH Port:"@ + suffix + " "@ + server.sshport@ + "\n"@ + prefix + "Label:"@
        + suffix + " "@ + server.label@ + "\n"@ + "--------------------\n"@
}

/// The details of `server` without colours.
pub open spec fn plain_details_text(server: Server) -> Seq<char> {
    "Name: "@ + server.name@ + "\nUser: "@ + server.user@ + "\nAddress: "@ + server.address@
        + "\nSSH Port: "@ + server.sshport@ + "\nLabel: "@ + server.label@
        + "\n--------------------\n"@
}

/// The coloured details of a server are one fixed template: each of its five
/// fields, in the order name, user, address, SSH port, label, is inserted
/// verbatim after a title opened by the prefix and closed by the suffix.
pub proof fn lemma_details_are_a_template()
    ensures
        exists|g: Seq<Seq<char>>|
            g.len() == 15 && forall|p: Seq<char>, s: Seq<char>, x: Server|
                #[trigger] details_text(p, s, x) == p + g[0] + s + g[1] + x.name@ + g[2] + p
                    + g[3] + s + g[4] + x.user@ + g[5] + p + g[6] + s + g[7] + x.address@ + g[8]
                    + p + g[9] + s + g[10] + x.sshport@ + g[11] + p + g[12] + s + g[13]
                    + x.label@ + g[14],
{
    let g: Seq<Seq<char>> = seq![
        "Name:"@,
        " "@,
        "\n"@,
        "User:"@,
        " "@,
        "\n"@,
        "Address:"@,
        " "@,
        "\n"@,
        "SSH Port:"@,
        " "@,
        "\n"@,
        "Label:"@,
        " "@,
        "\n"@ + "--------------------\n"@,
    ];
    assert forall|p: Seq<char>, s: Seq<char>, x: Server|
        #[trigger] details_text(p, s, x) == p + g[0] + s + g[1] + x.name@ + g[2] + p + g[3] + s
            + g[4] + x.user@ + g[5] + p + g[6] + s + g[7] + x.address@ + g[8] + p + g[9] + s
            + g[10] + x.sshport@ + g[11] + p + g[12] + s + g[13] + x.label@ + g[14] by {
        assert(details_text(p, s, x) =~= p + g[0] + s + g[1] + x.name@ + g[2] + p + g[3] + s
            + g[4] + x.user@ + g[5] + p + g[6] + s + g[7] + x.address@ + g[8] + p + g[9] + s
            + g[10] + x.sshport@ + g[11] + p + g[12] + s + g[13] + x.label@ + g[14]);
    }
    assert(g.len() == 15);
}

/// The plain details of a server are one fixed template: its five fields, in
/// the order name, user, address, SSH port, label, each inserted verbatim.
pub proof fn lemma_plain_details_are_a_template()
    ensures
        exists|g: Seq<Seq<char>>|
            g.len() == 6 && forall|x: Server|
                #[trigger] plain_details_text(x) == g[0] + x.name@ + g[1] + x.user@ + g[2]
                    + x.address@ + g[3] + x.sshport@ + g[4] + x.label@ + g[5],
{
    let g: Seq<Seq<char>> = seq![
        "Name: "@,
        "\nUser: "@,
        "\nAddress: "@,
        "\nSSH Port: "@,
        "\nLabel: "@,
        "\n--------------------\n"@,
    ];
    assert forall|x: Server|
        #[trigger] plain_details_text(x) == g[0] + x.name@ + g[1] + x.user@ + g[2] + x.address@
            + g[3] + x.sshport@ + g[4] + x.label@ + g[5] by {}
    assert(g.len() == 6);
}

/// The details of `server` in the main colour.
pub fn details_result_text(colors: &Vec<String>, server: &Server) -> (r: String)
    requires
        colors@.len() >= 3,
    ensures
        r@ == details_text(colors@[1]@, colors@[2]@, *server),
{
    let prefix: &str = colors[1].as_str();
    let suffix: &str = colors[2].as_str();
    let mut r = String::from_str(prefix);
    r.append("Name:");
    r.append(suffix);
    r.append(" ");
    r.append(server.name.as_str());
    r.append("\n");
    r.append(prefix);
    r.append("User:");
    r.append(suffix);
    r.append(" ");
    r.append(server.user.as_str());
    r.append("\n");
    r.append(prefix);
    r.append("Address:");
    r.append(suffix);
    r.append(" ");
    r.append(server.address.as_str());
    r.append("\n");
    r.append(prefix);
    r.append("SSH Port:");
    r.append(suffix);
    r.append(" ");
    r.append(server.sshport.as_str());
    r.append("\n");
    r.append(prefix);
    r.append("Label:");
    r.append(suffix);
    r.append(" ");
    r.append(server.label.as_str());
    r.append("\n");
    r.append("--------------------\n");
    r
}

/// The details of `server` without colours.
pub fn server_details(server: &Server) -> (r: String)
    ensures
        r@ == plain_details_text(*server),
{
    let mut r = String::from_str("Name: ");
    r.append(server.name.as_str());
    r.append("\nUser: ");
    r.append(server.user.as_str());
    r.append("\nAddress: ");
    r.append(server.address.as_str());
    r.append("\nSSH Port: ");
    r.append(server.sshport.as_str());
    r.append("\nLabel: ");
    r.append(server.label.as_str());
    r.append("\n--------------------\n");
    r
}

/// The plain details of a server are its coloured details with colours turned
/// off.
pub proof fn lemma_plain_details_are_uncoloured(server: Server)
    ensures
        plain_details_text(server) == details_text(Seq::empty(), Seq::empty(), server),
{
    reveal_strlit("Name:");
    reveal_strlit("Name: ");
    reveal_strlit(" ");
    reveal_strlit("\n");
    reveal_strlit("User:");
    reveal_strlit("\nUser: ");
    reveal_strlit("Address:");
    reveal_strlit("\nAddress: ");
    reveal_strlit("SSH Port:");
    reveal_strlit("\nSSH Port: ");
    reveal_strlit("Label:");
    reveal_strlit("\nLabel: ");
    reveal_strlit("--------------------\n");
    reveal_strlit("\n--------------------\n");
    let e = Seq::<char>::empty();
    assert(details_text(e, e, server) =~= plain_details_text(server));
}

/// The version line.
pub fn version_text(colors: &Vec<String>) -> (r: String)
    requires
        colors@.len() >= 3,
    ensures
        r@ == colors@[1]@ + "blkc:"@ + colors@[2]@ + " v0.2.2"@ + "\n"@,
{
    let mut r = String::from_str(colors[1].as_str());
    r.append("blkc:");
    r.append(colors[2].as_str());
    r.append(" v0.2.2");
    r.append("\n");
    r
}

/// One command of the help text: its name, the option it takes (empty when
/// none) and what it does.
pub struct HelpEntry {
    pub name: String,
    pub option: String,
    pub description: String,
}

/// The help lines of one command, in the root prefix `root` and the suffix.
pub open spec fn help_entry_text(root: Seq<char>, suffix: Seq<char>, entry: HelpEntry) -> Seq<
    char,
> {
    if entry.option@.len() > 0 {
        root + entry.name@ + " "@ + entry.option@ + " [ target ]:"@ + suffix + "\n \t"@
            + entry.description@ + "\n"@ + "\n"@
    } else {
        root + entry.name@ + ":"@ + entry.option@ + " "@ + suffix + "\n \t"@ + entry.description@
            + "\n"@ + "\n"@
    }
}

/// The help lines of the first `n` commands of `entries`, one after the other.
pub open spec fn help_entries_text(
    root: Seq<char>,
    suffix: Seq<char>,
    entries: Seq<HelpEntry>,
    n: int,
) -> Seq<char>
    decreases n,
{
    if n <= 0 {
        Seq::empty()
    } else {
        help_entries_text(root, suffix, entries, n - 1) + help_entry_text(
            root,
            suffix,
            entries[n - 1],
        )
    }
}

/// The usage part of the help text, before the commands.
pub open spec fn usage_text(root: Seq<char>, main: Seq<char>, suffix: Seq<char>) -> Seq<char> {
    main + "Usage:"@ + "\n"@ + "-------------------------"@ + suffix + "\n"@ + root + "blkc ["@
        + suffix + "--run|srun"@ + root + "] ["@ + suffix + "--name|label"@ + root + "]"@ + suffix
        + " name|label "@ + root + "["@ + suffix + "command "@ + root + "["@ + suffix
        + "argument..."@ + root + "]]"@ + suffix + "\n"@ + "\n"@
}

/// The closing part of the help text, after the commands.
pub open spec fn help_footer_text(root: Seq<char>, suffix: Seq<char>) -> Seq<char> {
    root + "-C:"@ + suffix + "\tDisable color output\n"@ + "\n"@
        + "`--srun` and `--run` cannot be used at the same time.\nThe same goes for `--name` and `--label`.\n"@
        + "\n"@
}

/// The help lines of `entry`.
fn help_entry(root: &str, suffix: &str, entry: &HelpEntry) -> (r: String)
    ensures
        r@ == help_entry_text(root@, suffix@, *entry),
{
    let mut r = String::from_str(root);
    r.append(entry.name.as_str());
    if entry.option.as_str().unicode_len() > 0 {
        r.append(" ");
        r.append(entry.option.as_str());
        r.append(" [ target ]:");
    } else {
        r.append(":");
        r.append(entry.option.as_str());
        r.append(" ");
    }
    r.append(suffix);
    r.append("\n \t");
    r.append(entry.description.as_str());
    r.append("\n");
    r.append("\n");
    r
}

/// The help text: the usage, the lines of each command of `entries`, and the
/// colour option with the rules on combining options.
pub fn help_text(colors: &Vec<String>, entries: &Vec<HelpEntry>) -> (r: String)
    requires
        colors@.len() >= 3,
    ensures
        r@ == usage_text(colors@[0]@, colors@[1]@, colors@[2]@) + help_entries_text(
            colors@[0]@,
            colors@[2]@,
            entries@,
            entries@.len() as int,
        ) + help_footer_text(colors@[0]@, colors@[2]@),
{
    let root: &str = colors[0].as_str();
    let main: &str = colors[1].as_str();
    let suffix: &str = colors[2].as_str();
    let mut r = String::from_str(main);
    r.append("Usage:");
    r.append("\n");
    r.append("-------------------------");
    r.append(suffix);
    r.append("\n");
    r.append(root);
    r.append("blkc [");
    r.append(suffix);
    r.append("--run|srun");
    r.append(root);
    r.append("] [");
    r.append(suffix);
    r.append("--name|label");
    r.append(root);
    r.append("]");
    r.append(suffix);
    r.append(" name|label ");
    r.append(root);
    r.append("[");
    r.append(suffix);
    r.append("command ");
    r.append(root);
    r.append("[");
    r.append(suffix);
    r.append("argument...");
    r.append(root);
    r.append("]]");
    r.append(suffix);
    r.append("\n");
    r.append("\n");
    let ghost head = r@;
    assert(head == usage_text(root@, main@, suffix@));
    let n: usize = entries.len();
    let mut i: usize = 0;
    while i < n
        invariant
            0 <= i <= n,
            n == entries@.len(),
            r@ == head + help_entries_text(root@, suffix@, entries@, i as int),
        decreases n - i,
    {
        let piece: String = help_entry(root, suffix, &entries[i]);
        proof {
            let before = help_entries_text(root@, suffix@, entries@, i as int);
            assert(help_entries_text(root@, suffix@, entries@, i + 1) == before + piece@);
            assert(r@ + piece@ =~= head + (before + piece@));
        }
        r.append(piece.as_str());
        i = i + 1;
    }
    r.append(root);
    r.append("-C:");
    r.append(suffix);
    r.append("\tDisable color output\n");
    r.append("\n");
    r.append(
        "`--srun` and `--run` cannot be used at the same time.\nThe same goes for `--name` and `--label`.\n",
    );
    r.append("\n");
    r
}


/// The help lines of a command are a fixed template: with an option, the
/// name, the option, the suffix and the description are inserted verbatim in
/// that order after the root prefix; without one, the name, the suffix and the
/// description.
pub proof fn lemma_help_entry_is_a_template()
    ensures
        exists|g: Seq<Seq<char>>|
            g.len() == 4 && forall|r: Seq<char>, s: Seq<char>, x: HelpEntry|
                x.option@.len() > 0 ==> #[trigger] help_entry_text(r, s, x) == r + x.name@ + g[0]
                    + x.option@ + g[1] + s + g[2] + x.description@ + g[3],
        exists|h: Seq<Seq<char>>|
            h.len() == 3 && forall|r: Seq<char>, s: Seq<char>, x: HelpEntry|
                x.option@.len() == 0 ==> #[trigger] help_entry_text(r, s, x) == r + x.name@ + h[0]
                    + s + h[1] + x.description@ + h[2],
{
    let g: Seq<Seq<char>> = seq![" "@, " [ target ]:"@, "\n \t"@, "\n"@ + "\n"@];
    assert forall|r: Seq<char>, s: Seq<char>, x: HelpEntry|
        x.option@.len() > 0 implies #[trigger] help_entry_text(r, s, x) == r + x.name@ + g[0]
            + x.option@ + g[1] + s + g[2] + x.description@ + g[3] by {
        assert(help_entry_text(r, s, x) =~= r + x.name@ + g[0] + x.option@ + g[1] + s + g[2]
            + x.description@ + g[3]);
    }
    assert(g.len() == 4);
    let h: Seq<Seq<char>> = seq![":"@ + " "@, "\n \t"@, "\n"@ + "\n"@];
    assert forall|r: Seq<char>, s: Seq<char>, x: HelpEntry|
        x.option@.len() == 0 implies #[trigger] help_entry_text(r, s, x) == r + x.name@ + h[0] + s
            + h[1] + x.description@ + h[2] by {
        assert(x.option@ =~= Seq::<char>::empty());
        assert(help_entry_text(r, s, x) =~= r + x.name@ + h[0] + s + h[1] + x.description@
            + h[2]);
    }
    assert(h.len() == 3);
}

/// The help lines of the first `n` commands are those of the first `n - 1`
/// followed by those of the `n`-th, whatever follows in the list.
proof fn lemma_help_entries_prefix(r: Seq<char>, s: Seq<char>, a: Seq<HelpEntry>, b: Seq<HelpEntry>, n: int)
    requires
        0 <= n <= a.len(),
        n <= b.len(),
        a.take(n) == b.take(n),
    ensures
        help_entries_text(r, s, a, n) == help_entries_text(r, s, b, n),
    decreases n,
{
    if n > 0 {
        assert(a.take(n - 1) =~= a.take(n).take(n - 1));
        assert(b.take(n - 1) =~= b.take(n).take(n - 1));
        lemma_help_entries_prefix(r, s, a, b, n - 1);
        assert(a[n - 1] == a.take(n)[n - 1]);
        assert(b[n - 1] == b.take(n)[n - 1]);
    }
}

/// The help lines of a list of commands are those of each command, one after
/// the other: none for no commands, a command's own lines for one, and for two
/// lists one after the other, the lines of the first then those of the second.
pub proof fn lemma_help_entries_concatenate(
    r: Seq<char>,
    s: Seq<char>,
    a: Seq<HelpEntry>,
    b: Seq<HelpEntry>,
    x: HelpEntry,
)
    ensures
        help_entries_text(r, s, Seq::empty(), 0) == Seq::<char>::empty(),
        help_entries_text(r, s, seq![x], 1) == help_entry_text(r, s, x),
        help_entries_text(r, s, a + b, (a + b).len() as int) == help_entries_text(
            r,
            s,
            a,
            a.len() as int,
        ) + help_entries_text(r, s, b, b.len() as int),
    decreases b.len(),
{
    assert(help_entries_text(r, s, seq![x], 0) == Seq::<char>::empty());
    assert(help_entries_text(r, s, seq![x], 1) =~= help_entry_text(r, s, x));
    if b.len() == 0 {
        assert(a + b =~= a);
        assert(help_entries_text(r, s, b, 0) == Seq::<char>::empty());
        assert(help_entries_text(r, s, a, a.len() as int) + Seq::<char>::empty() =~= help_entries_text(
            r,
            s,
            a,
            a.len() as int,
        ));
    } else {
        let bs = b.drop_last();
        lemma_help_entries_concatenate(r, s, a, bs, x);
        let ab = a + b;
        let abs = a + bs;
        let n = ab.len() as int;
        assert(ab.take(n - 1) =~= abs.take(n - 1));
        lemma_help_entries_prefix(r, s, ab, abs, n - 1);
        assert(abs.len() == n - 1);
        assert(b.take(b.len() - 1) =~= bs.take(b.len() - 1));
        lemma_help_entries_prefix(r, s, b, bs, b.len() - 1);
        assert(ab[n - 1] == b[b.len() - 1]);
        let e = help_entry_text(r, s, b[b.len() - 1]);
        assert(help_entries_text(r, s, ab, n) == help_entries_text(r, s, abs, n - 1) + e);
        assert(help_entries_text(r, s, b, b.len() as int) == help_entries_text(
            r,
            s,
            bs,
            bs.len() as int,
        ) + e);
        assert(help_entries_text(r, s, a, a.len() as int) + (help_entries_text(
            r,
            s,
            bs,
            bs.len() as int,
        ) + e) =~= help_entries_text(r, s, a, a.len() as int) + help_entries_text(
            r,
            s,
            bs,
            bs.len() as int,
        ) + e);
    }
}

/// The usage part of the help is a fixed template: the main prefix, then the
/// suffix and root prefix alternately, with fixed texts between them.
pub proof fn lemma_usage_is_a_template()
    ensures
        exists|g: Seq<Seq<char>>|
            g.len() == 14 && forall|r: Seq<char>, m: Seq<char>, s: Seq<char>|
                #[trigger] usage_text(r, m, s) == m + g[0] + s + g[1] + r + g[2] + s + g[3] + r
                    + g[4] + s + g[5] + r + g[6] + s + g[7] + r + g[8] + s + g[9] + r + g[10] + s
                    + g[11] + r + g[12] + s + g[13],
{
    let g: Seq<Seq<char>> = seq![
        "Usage:"@ + "\n"@ + "-------------------------"@,
        "\n"@,
        "blkc ["@,
        "--run|srun"@,
        "] ["@,
        "--name|label"@,
        "]"@,
        " name|label "@,
        "["@,
        "command "@,
        "["@,
        "argument..."@,
        "]]"@,
        "\n"@ + "\n"@,
    ];
    assert forall|r: Seq<char>, m: Seq<char>, s: Seq<char>|
        #[trigger] usage_text(r, m, s) == m + g[0] + s + g[1] + r + g[2] + s + g[3] + r + g[4] + s
            + g[5] + r + g[6] + s + g[7] + r + g[8] + s + g[9] + r + g[10] + s + g[11] + r + g[12]
            + s + g[13] by {
        assert(usage_text(r, m, s) =~= m + g[0] + s + g[1] + r + g[2] + s + g[3] + r + g[4] + s
            + g[5] + r + g[6] + s + g[7] + r + g[8] + s + g[9] + r + g[10] + s + g[11] + r + g[12]
            + s + g[13]);
    }
    assert(g.len() == 14);
}

/// The closing part of the help is the root prefix and the suffix, each
/// followed by a fixed text.
pub proof fn lemma_help_footer_is_a_template()
    ensures
        exists|g: Seq<Seq<char>>|
            g.len() == 2 && forall|r: Seq<char>, s: Seq<char>|
                #[trigger] help_footer_text(r, s) == r + g[0] + s + g[1],
{
    let g: Seq<Seq<char>> = seq![
        "-C:"@,
        "\tDisable color output\n"@ + "\n"@
            + "`--srun` and `--run` cannot be used at the same time.\nThe same goes for `--name` and `--label`.\n"@
            + "\n"@,
    ];
    assert forall|r: Seq<char>, s: Seq<char>| #[trigger] help_footer_text(r, s) == r + g[0] + s + g[1] by {
        assert(help_footer_text(r, s) =~= r + g[0] + s + g[1]);
    }
    assert(g.len() == 2);
}

} // verus!
